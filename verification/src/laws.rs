//! The properties the pipeline is accountable to, stated and proved over
//! the same specifications its contracts use: clearing is idempotent, a
//! primitive inside the bounds leaves a mark while one outside touches
//! nothing, point-sampled coverage never exceeds conservative coverage,
//! dark voxels stay dark under any light rig, the mip chain is determined
//! by its base level, and a frame's result is a function of that frame's
//! scene alone.

use vstd::prelude::*;

use crate::color::{Nrm, Rgb8, RgbWide};
use crate::gpu_model::{world_vertex, PrimModel};
use crate::math::{dist2, Vec3i};
use crate::renderer::{inject_grid, injected_voxel, light_sum, light_term};
use crate::renderer_utils::Light;
use crate::volume::{
    axis_cell, axis_min, cell_index, cleared_model, inside_axis, ix, iy, iz,
    lemma_cell_index_inverse, lemma_level_res_bounds, level_res, mip_consistent, mip_reduce,
    valid_cell, VolModel,
};
use crate::voxelizer::{
    axis_range, covers_cons, covers_direct, covers_flat, lemma_voxelize_prim_upto_wf,
    lemma_write_tri_noop, spec_max3, spec_min3, tri_box, vertex_cell_of, voxelize_prim,
    voxelize_prim_upto, voxelize_scene, write_tri,
};

verus! {

/// Clearing the volume twice in a row yields exactly the state of clearing
/// it once: the cleared state is a fixed point of `clear`.
pub proof fn lemma_clear_idempotent(m: VolModel)
    ensures
        cleared_model(cleared_model(m)) == cleared_model(m),
{
    let c1 = cleared_model(m);
    let c2 = cleared_model(c1);
    assert(c2.albedo =~= c1.albedo);
    assert(c2.normal =~= c1.normal);
    assert(c2.emission =~= c1.emission);
    assert forall|k: int| 0 <= k < c2.radiance.len() implies c2.radiance[k] =~= c1.radiance[k] by {}
    assert(c2.radiance =~~= c1.radiance);
    assert(c2 =~~= c1);
}

/// A world-space point lying between `wmin` and `wmax` on one axis and
/// inside the volume's extent lands inside the clamped cell range of
/// `[wmin, wmax]`.
proof fn lemma_point_in_axis_range(w: int, wmin: int, wmax: int, t: int, s: int, r: int)
    requires
        wmin <= w <= wmax,
        inside_axis(w, t, s),
        1 <= s,
        1 <= r,
    ensures
        axis_range(wmin, wmax, t, s, r) is Some,
        ({
            let lohi = axis_range(wmin, wmax, t, s, r).unwrap();
            lohi.0 <= axis_cell(w, t, s, r) <= lohi.1
        }),
{
    let vmin = axis_min(t, s);
    let pw = w - vmin;
    let a = wmin - vmin;
    let b = wmax - vmin;
    crate::volume::lemma_axis_cell_in_grid(w, t, s, r);
    let cell = axis_cell(w, t, s, r);
    if a > 0 {
        assert(a * r <= pw * r) by (nonlinear_arith)
            requires
                a <= pw,
                0 < r,
        ;
        assert(0 <= a * r) by (nonlinear_arith)
            requires
                0 < a,
                0 < r,
        ;
        vstd::arithmetic::div_mod::lemma_div_is_ordered(a * r, pw * r, s);
    }
    if b < s {
        assert(pw * r <= b * r) by (nonlinear_arith)
            requires
                pw <= b,
                0 < r,
        ;
        assert(0 <= pw * r) by (nonlinear_arith)
            requires
                0 <= pw,
                0 < r,
        ;
        vstd::arithmetic::div_mod::lemma_div_is_ordered(pw * r, b * r, s);
    }
}

/// Coverage superset: every cell the point-sampled (fragment-direct)
/// rasterization of a triangle marks is also covered by the conservative
/// rasterization of the same triangle.
pub proof fn lemma_direct_within_conservative(
    p: PrimModel,
    i0: int,
    i1: int,
    i2: int,
    tr: Vec3i,
    sc: Vec3i,
    r: int,
    x: int,
    y: int,
    z: int,
)
    requires
        1 <= sc.x && 1 <= sc.y && 1 <= sc.z,
        1 <= r,
        covers_direct(p, i0, i1, i2, tr, sc, r, x, y, z),
    ensures
        covers_cons(p, i0, i1, i2, tr, sc, r, x, y, z),
{
    let v0 = world_vertex(p, i0);
    let v1 = world_vertex(p, i1);
    let v2 = world_vertex(p, i2);
    if vertex_cell_of(v0, tr, sc, r) == Some((x, y, z)) {
        lemma_vertex_in_box(p, i0, i1, i2, tr, sc, r, v0, x, y, z);
    } else if vertex_cell_of(v1, tr, sc, r) == Some((x, y, z)) {
        lemma_vertex_in_box(p, i0, i1, i2, tr, sc, r, v1, x, y, z);
    } else {
        lemma_vertex_in_box(p, i0, i1, i2, tr, sc, r, v2, x, y, z);
    }
}

/// The cell of one of a triangle's vertices lies inside the triangle's
/// clamped bounding-box range.
proof fn lemma_vertex_in_box(
    p: PrimModel,
    i0: int,
    i1: int,
    i2: int,
    tr: Vec3i,
    sc: Vec3i,
    r: int,
    w: Vec3i,
    x: int,
    y: int,
    z: int,
)
    requires
        1 <= sc.x && 1 <= sc.y && 1 <= sc.z,
        1 <= r,
        w == world_vertex(p, i0) || w == world_vertex(p, i1) || w == world_vertex(p, i2),
        vertex_cell_of(w, tr, sc, r) == Some((x, y, z)),
    ensures
        covers_cons(p, i0, i1, i2, tr, sc, r, x, y, z),
{
    let v0 = world_vertex(p, i0);
    let v1 = world_vertex(p, i1);
    let v2 = world_vertex(p, i2);
    lemma_point_in_axis_range(
        w.x as int,
        spec_min3(v0.x as int, v1.x as int, v2.x as int),
        spec_max3(v0.x as int, v1.x as int, v2.x as int),
        tr.x as int,
        sc.x as int,
        r,
    );
    lemma_point_in_axis_range(
        w.y as int,
        spec_min3(v0.y as int, v1.y as int, v2.y as int),
        spec_max3(v0.y as int, v1.y as int, v2.y as int),
        tr.y as int,
        sc.y as int,
        r,
    );
    lemma_point_in_axis_range(
        w.z as int,
        spec_min3(v0.z as int, v1.z as int, v2.z as int),
        spec_max3(v0.z as int, v1.z as int, v2.z as int),
        tr.z as int,
        sc.z as int,
        r,
    );
}

/// A primitive whose vertices all land inside the volume's bounds, with at
/// least one triangle and a non-neutral material albedo, leaves at least
/// one voxel with that albedo after voxelization — under either strategy,
/// and whatever the grids held before.
pub proof fn lemma_voxelize_coverage_inside(m: VolModel, p: PrimModel, cons: bool)
    requires
        m.wf(),
        p.wf(),
        p.tri_count() >= 1,
        forall|j: int|
            0 <= j < p.positions.len() ==> vertex_cell_of(
                world_vertex(p, j),
                m.translation,
                m.scaling,
                m.resolution as int,
            ) is Some,
    ensures
        exists|i: int|
            0 <= i < voxelize_prim(m, p, cons).albedo.len() && voxelize_prim(m, p, cons).albedo[i]
                == p.material.albedo,
        !p.material.albedo.is_zero() ==> exists|i: int|
            0 <= i < voxelize_prim(m, p, cons).albedo.len() && !voxelize_prim(
                m,
                p,
                cons,
            ).albedo[i].is_zero(),
{
    let r = m.resolution as int;
    let n = p.tri_count();
    let prev = voxelize_prim_upto(m, p, n - 1, cons);
    lemma_voxelize_prim_upto_wf(m, p, n - 1, cons);
    let i0 = p.indices[3 * (n - 1)] as int;
    let i1 = p.indices[3 * (n - 1) + 1] as int;
    let i2 = p.indices[3 * (n - 1) + 2] as int;
    assert(3 * (n - 1) + 2 < p.indices.len()) by {
        vstd::arithmetic::div_mod::lemma_fundamental_div_mod(p.indices.len() as int, 3);
    }
    let w = world_vertex(p, i0);
    let cell = vertex_cell_of(w, m.translation, m.scaling, r).unwrap();
    let (x, y, z) = cell;
    crate::volume::lemma_axis_cell_in_grid(w.x as int, m.translation.x as int, m.scaling.x as int, r);
    crate::volume::lemma_axis_cell_in_grid(w.y as int, m.translation.y as int, m.scaling.y as int, r);
    crate::volume::lemma_axis_cell_in_grid(w.z as int, m.translation.z as int, m.scaling.z as int, r);
    lemma_cell_index_inverse(r, x, y, z);
    let i = cell_index(r, x, y, z);
    if cons {
        lemma_vertex_in_box(p, i0, i1, i2, m.translation, m.scaling, r, w, x, y, z);
    }
    assert(covers_flat(p, i0, i1, i2, prev.translation, prev.scaling, r, cons, i));
    assert(voxelize_prim(m, p, cons) == write_tri(prev, p, i0, i1, i2, cons));
    assert(voxelize_prim(m, p, cons).albedo[i] == p.material.albedo);
    if !p.material.albedo.is_zero() {
        assert(!voxelize_prim(m, p, cons).albedo[i].is_zero());
    }
}

/// A primitive fully outside the volume's bounds — all its vertices beyond
/// one face of the box along one axis — touches no voxel at all.
pub open spec fn prim_outside(p: PrimModel, tr: Vec3i, sc: Vec3i) -> bool {
    ||| (forall|j: int|
        0 <= j < p.positions.len() ==> (#[trigger] world_vertex(p, j)).x < axis_min(
            tr.x as int,
            sc.x as int,
        ))
    ||| (forall|j: int|
        0 <= j < p.positions.len() ==> (#[trigger] world_vertex(p, j)).x >= axis_min(
            tr.x as int,
            sc.x as int,
        ) + sc.x)
    ||| (forall|j: int|
        0 <= j < p.positions.len() ==> (#[trigger] world_vertex(p, j)).y < axis_min(
            tr.y as int,
            sc.y as int,
        ))
    ||| (forall|j: int|
        0 <= j < p.positions.len() ==> (#[trigger] world_vertex(p, j)).y >= axis_min(
            tr.y as int,
            sc.y as int,
        ) + sc.y)
    ||| (forall|j: int|
        0 <= j < p.positions.len() ==> (#[trigger] world_vertex(p, j)).z < axis_min(
            tr.z as int,
            sc.z as int,
        ))
    ||| (forall|j: int|
        0 <= j < p.positions.len() ==> (#[trigger] world_vertex(p, j)).z >= axis_min(
            tr.z as int,
            sc.z as int,
        ) + sc.z)
}

/// Voxelizing a fully-outside primitive changes nothing, under either
/// strategy.
pub proof fn lemma_voxelize_coverage_outside(m: VolModel, p: PrimModel, cons: bool)
    requires
        m.wf(),
        p.wf(),
        prim_outside(p, m.translation, m.scaling),
    ensures
        voxelize_prim(m, p, cons) == m,
{
    lemma_voxelize_outside_upto(m, p, cons, p.tri_count());
}

/// Induction over the triangles of a fully-outside primitive.
proof fn lemma_voxelize_outside_upto(m: VolModel, p: PrimModel, cons: bool, n: int)
    requires
        m.wf(),
        p.wf(),
        prim_outside(p, m.translation, m.scaling),
        n <= p.tri_count(),
    ensures
        voxelize_prim_upto(m, p, n, cons) == m,
    decreases n,
{
    if n > 0 {
        lemma_voxelize_outside_upto(m, p, cons, n - 1);
        let i0 = p.indices[3 * (n - 1)] as int;
        let i1 = p.indices[3 * (n - 1) + 1] as int;
        let i2 = p.indices[3 * (n - 1) + 2] as int;
        assert(3 * (n - 1) + 2 < p.indices.len()) by {
            vstd::arithmetic::div_mod::lemma_fundamental_div_mod(p.indices.len() as int, 3);
        }
        lemma_outside_tri_noop(m, p, cons, i0, i1, i2);
    }
}

/// One triangle of a fully-outside primitive writes nothing.
proof fn lemma_outside_tri_noop(m: VolModel, p: PrimModel, cons: bool, i0: int, i1: int, i2: int)
    requires
        m.wf(),
        p.wf(),
        prim_outside(p, m.translation, m.scaling),
        0 <= i0 < p.positions.len(),
        0 <= i1 < p.positions.len(),
        0 <= i2 < p.positions.len(),
    ensures
        write_tri(m, p, i0, i1, i2, cons) == m,
{
    let tr = m.translation;
    let sc = m.scaling;
    let r = m.resolution as int;
    let v0 = world_vertex(p, i0);
    let v1 = world_vertex(p, i1);
    let v2 = world_vertex(p, i2);
    assert(!crate::voxelizer::classify_covered(p, i0, i1, i2, tr, sc, r, cons)) by {
        assert(vertex_cell_of(v0, tr, sc, r) is None);
        assert(vertex_cell_of(v1, tr, sc, r) is None);
        assert(vertex_cell_of(v2, tr, sc, r) is None);
        if cons {
            assert(tri_box(p, i0, i1, i2, tr, sc, r) is None);
        }
    }
    lemma_write_tri_noop(m, p, i0, i1, i2, cons);
}

/// Injection locality: a voxel with zero albedo and zero emission has zero
/// radiance after injection, under any normal, position and light rig —
/// no radiance from nothing.
pub proof fn lemma_injection_locality(n: Nrm, p: Vec3i, lights: Seq<Light>)
    ensures
        injected_voxel(
            Rgb8 { r: 0, g: 0, b: 0 },
            Rgb8 { r: 0, g: 0, b: 0 },
            n,
            p,
            lights,
        ) == (RgbWide { r: 0, g: 0, b: 0 }),
{
    lemma_dark_sum_zero(n, p, lights, 0);
    lemma_dark_sum_zero(n, p, lights, 1);
    lemma_dark_sum_zero(n, p, lights, 2);
}

/// With zero albedo, every light's contribution vanishes.
proof fn lemma_dark_sum_zero(n: Nrm, p: Vec3i, lights: Seq<Light>, ch: int)
    ensures
        light_sum(0u8, n, p, lights, ch) == 0,
    decreases lights.len(),
{
    if lights.len() > 0 {
        lemma_dark_sum_zero(n, p, lights.drop_last(), ch);
        let l = lights.last();
        let f = crate::renderer::facing(n, p, l.position);
        if f > 0 {
            assert(0 * crate::renderer_utils::emitted_chan(
                crate::color::chan(l.color, ch),
                l.intensity,
            ) == 0) by (nonlinear_arith);
            assert(0 * f == 0) by (nonlinear_arith);
            let den = (crate::color::NORMAL_ONE as int) * (crate::math::FP_ONE as int)
                * crate::renderer::falloff(p, l.position);
            assert(light_term(0u8, l, n, p, ch) == 0int / den);
            assert(den != 0) by {
                assert(dist2(p, l.position) >= 0) by (nonlinear_arith);
                crate::math::lemma_div_pos_bounds(dist2(p, l.position), 1048576);
                assert(crate::renderer::falloff(p, l.position) >= 1);
                assert(130048 * crate::renderer::falloff(p, l.position) >= 130048)
                    by (nonlinear_arith)
                    requires
                        crate::renderer::falloff(p, l.position) >= 1,
                ;
            }
            assert(0int / den == 0) by {
                vstd::arithmetic::div_mod::lemma_div_of0(den);
            }
        }
    }
}

/// The same, read off the injection pass's whole output grid: a cell whose
/// stored albedo and emission are both neutral receives zero radiance.
pub proof fn lemma_injection_locality_grid(m: VolModel, lights: Seq<Light>, i: int)
    requires
        m.wf(),
        0 <= i < m.radiance[0].len(),
        m.albedo[i] == (Rgb8 { r: 0, g: 0, b: 0 }),
        m.emission[i] == (Rgb8 { r: 0, g: 0, b: 0 }),
    ensures
        inject_grid(m, lights)[i] == (RgbWide { r: 0, g: 0, b: 0 }),
{
    let r = m.resolution as int;
    lemma_injection_locality(
        m.normal[i],
        crate::volume::voxel_center(m, ix(i, r), iy(i, r), iz(i, r)),
        lights,
    );
}

/// The mip chain is determined by its base: two consistent pyramids over
/// the same level-0 field agree on every level.
pub proof fn lemma_mip_chain_determined(m1: VolModel, m2: VolModel)
    requires
        m1.wf(),
        m2.wf(),
        mip_consistent(m1),
        mip_consistent(m2),
        m1.resolution == m2.resolution,
        m1.radiance[0] == m2.radiance[0],
    ensures
        m1.radiance =~= m2.radiance,
{
    assert forall|k: int| 0 <= k < m1.radiance.len() implies m1.radiance[k] == m2.radiance[k] by {
        lemma_mip_level_determined(m1, m2, k);
    }
}

/// Induction for [`lemma_mip_chain_determined`]: level `k` agrees.
proof fn lemma_mip_level_determined(m1: VolModel, m2: VolModel, k: int)
    requires
        m1.wf(),
        m2.wf(),
        mip_consistent(m1),
        mip_consistent(m2),
        m1.resolution == m2.resolution,
        m1.radiance[0] == m2.radiance[0],
        0 <= k < m1.radiance.len(),
    ensures
        m1.radiance[k] == m2.radiance[k],
    decreases k,
{
    if k > 0 {
        lemma_mip_level_determined(m1, m2, k - 1);
        let r = m1.resolution as int;
        let pr = level_res(r, k - 1);
        lemma_level_res_bounds(r, k - 1);
        assert(level_res(r, k) == pr / 2);
        let h = pr / 2;
        assert(m1.radiance[k].len() == level_res(r, k) * level_res(r, k) * level_res(r, k));
        assert(m2.radiance[k].len() == level_res(r, k) * level_res(r, k) * level_res(r, k));
        assert(h * h * h == level_res(r, k) * level_res(r, k) * level_res(r, k));
        assert forall|i: int| 0 <= i < m1.radiance[k].len() implies m1.radiance[k][i]
            == m2.radiance[k][i] by {
            crate::volume::lemma_cell_index_reconstruct(h, i);
            let x = ix(i, h);
            let y = iy(i, h);
            let z = iz(i, h);
            assert(valid_cell(h, x, y, z));
            assert(m1.radiance[k][cell_index(h, x, y, z)] == mip_reduce(
                m1.radiance[k - 1],
                pr,
                x,
                y,
                z,
            ));
            assert(m2.radiance[k][cell_index(h, x, y, z)] == mip_reduce(
                m2.radiance[k - 1],
                pr,
                x,
                y,
                z,
            ));
        }
        assert(m1.radiance[k] =~= m2.radiance[k]);
    }
}

/// Frame isolation: a frame's cleared volume, voxelized geometry and
/// injected radiance are functions of the frame's own scene, lights and
/// volume placement alone — whatever either volume's grids held before,
/// the same submission produces the same radiance field.
pub proof fn lemma_frame_isolation(
    m_a: VolModel,
    m_b: VolModel,
    prims: Seq<PrimModel>,
    lights: Seq<Light>,
    cons: bool,
)
    requires
        m_a.wf(),
        m_b.wf(),
        m_a.resolution == m_b.resolution,
        m_a.translation == m_b.translation,
        m_a.scaling == m_b.scaling,
        m_a.view_translation == m_b.view_translation,
        m_a.view_scaling == m_b.view_scaling,
    ensures
        cleared_model(m_a) == cleared_model(m_b),
        voxelize_scene(cleared_model(m_a), prims, cons) == voxelize_scene(
            cleared_model(m_b),
            prims,
            cons,
        ),
        inject_grid(voxelize_scene(cleared_model(m_a), prims, cons), lights) == inject_grid(
            voxelize_scene(cleared_model(m_b), prims, cons),
            lights,
        ),
{
    let c_a = cleared_model(m_a);
    let c_b = cleared_model(m_b);
    assert(c_a.albedo =~= c_b.albedo);
    assert(c_a.normal =~= c_b.normal);
    assert(c_a.emission =~= c_b.emission);
    assert(c_a.radiance.len() == c_b.radiance.len());
    assert forall|k: int| 0 <= k < c_a.radiance.len() implies c_a.radiance[k] =~= c_b.radiance[k] by {
        assert(m_a.radiance[k].len() == level_res(m_a.resolution as int, k) * level_res(
            m_a.resolution as int,
            k,
        ) * level_res(m_a.resolution as int, k));
        assert(m_b.radiance[k].len() == level_res(m_b.resolution as int, k) * level_res(
            m_b.resolution as int,
            k,
        ) * level_res(m_b.resolution as int, k));
    }
    assert(c_a.radiance =~~= c_b.radiance);
    assert(c_a =~~= c_b);
}

} // verus!
