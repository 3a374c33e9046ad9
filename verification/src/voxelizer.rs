//! Voxelization: rasterizing the primitive list into the volume's geometry
//! channels under the orthographic grid mapping.  Two strategies share one
//! observable contract: a conservative one covering every cell a triangle's
//! bounding box touches, and a point-sampled one covering only the cells of
//! the triangle's vertices (thin geometry may then miss cells).  The hybrid
//! scheme first compacts surviving triangles through the scratch resources,
//! then rasterizes exactly that subset with the same rule.

use vstd::prelude::*;

use crate::color::{Nrm, Rgb8};
use crate::gpu_model::{world_vertex, GpuPrimitive, PrimModel};
use crate::math::Vec3i;
use crate::renderer_utils::{AtomicCounter, IndicesBuffer, IndirectCommand};
use crate::volume::{
    axis_cell, axis_min, cell_index, inside_axis, ix, iy, iz, lemma_cell_index_inverse,
    lemma_cell_index_reconstruct, VolModel, Volume,
};

verus! {

/// Smallest of three values.
pub open spec fn spec_min3(a: int, b: int, c: int) -> int {
    if a <= b && a <= c {
        a
    } else if b <= c {
        b
    } else {
        c
    }
}

/// Largest of three values.
pub open spec fn spec_max3(a: int, b: int, c: int) -> int {
    if a >= b && a >= c {
        a
    } else if b >= c {
        b
    } else {
        c
    }
}

/// The cells of one axis a world-space interval overlaps: `None` when the
/// interval misses the volume's extent entirely, otherwise the clamped
/// half-open cell range.
pub open spec fn axis_range(wmin: int, wmax: int, t: int, s: int, r: int) -> Option<(int, int)> {
    let a = wmin - axis_min(t, s);
    let b = wmax - axis_min(t, s);
    if b < 0 || a >= s {
        None
    } else {
        Some(
            (
                if a <= 0 {
                    0
                } else {
                    (a * r) / s
                },
                if b >= s {
                    r - 1
                } else {
                    (b * r) / s
                },
            ),
        )
    }
}

/// The cell range a triangle's bounding box covers, per axis; `None` when
/// the box misses the volume.
pub open spec fn tri_box(
    p: PrimModel,
    i0: int,
    i1: int,
    i2: int,
    tr: Vec3i,
    sc: Vec3i,
    r: int,
) -> Option<(int, int, int, int, int, int)> {
    let v0 = world_vertex(p, i0);
    let v1 = world_vertex(p, i1);
    let v2 = world_vertex(p, i2);
    let rx = axis_range(
        spec_min3(v0.x as int, v1.x as int, v2.x as int),
        spec_max3(v0.x as int, v1.x as int, v2.x as int),
        tr.x as int,
        sc.x as int,
        r,
    );
    let ry = axis_range(
        spec_min3(v0.y as int, v1.y as int, v2.y as int),
        spec_max3(v0.y as int, v1.y as int, v2.y as int),
        tr.y as int,
        sc.y as int,
        r,
    );
    let rz = axis_range(
        spec_min3(v0.z as int, v1.z as int, v2.z as int),
        spec_max3(v0.z as int, v1.z as int, v2.z as int),
        tr.z as int,
        sc.z as int,
        r,
    );
    match (rx, ry, rz) {
        (Some(bx), Some(by), Some(bz)) => Some((bx.0, bx.1, by.0, by.1, bz.0, bz.1)),
        _ => None,
    }
}

/// The cell containing a world-space point, or `None` when it lies outside
/// the volume.
pub open spec fn vertex_cell_of(w: Vec3i, tr: Vec3i, sc: Vec3i, r: int) -> Option<(int, int, int)> {
    if inside_axis(w.x as int, tr.x as int, sc.x as int) && inside_axis(
        w.y as int,
        tr.y as int,
        sc.y as int,
    ) && inside_axis(w.z as int, tr.z as int, sc.z as int) {
        Some(
            (
                axis_cell(w.x as int, tr.x as int, sc.x as int, r),
                axis_cell(w.y as int, tr.y as int, sc.y as int, r),
                axis_cell(w.z as int, tr.z as int, sc.z as int, r),
            ),
        )
    } else {
        None
    }
}

/// Conservative coverage: the cell lies in the triangle's clamped
/// bounding-box range.
pub open spec fn covers_cons(
    p: PrimModel,
    i0: int,
    i1: int,
    i2: int,
    tr: Vec3i,
    sc: Vec3i,
    r: int,
    x: int,
    y: int,
    z: int,
) -> bool {
    match tri_box(p, i0, i1, i2, tr, sc, r) {
        Some(b) => b.0 <= x <= b.1 && b.2 <= y <= b.3 && b.4 <= z <= b.5,
        None => false,
    }
}

/// Point-sampled coverage: the cell holds one of the triangle's vertices.
pub open spec fn covers_direct(
    p: PrimModel,
    i0: int,
    i1: int,
    i2: int,
    tr: Vec3i,
    sc: Vec3i,
    r: int,
    x: int,
    y: int,
    z: int,
) -> bool {
    ||| vertex_cell_of(world_vertex(p, i0), tr, sc, r) == Some((x, y, z))
    ||| vertex_cell_of(world_vertex(p, i1), tr, sc, r) == Some((x, y, z))
    ||| vertex_cell_of(world_vertex(p, i2), tr, sc, r) == Some((x, y, z))
}

/// Coverage under the selected rasterization mode.
pub open spec fn covers(
    p: PrimModel,
    i0: int,
    i1: int,
    i2: int,
    tr: Vec3i,
    sc: Vec3i,
    r: int,
    conservative: bool,
    x: int,
    y: int,
    z: int,
) -> bool {
    if conservative {
        covers_cons(p, i0, i1, i2, tr, sc, r, x, y, z)
    } else {
        covers_direct(p, i0, i1, i2, tr, sc, r, x, y, z)
    }
}

/// Coverage of the flat cell `i`.
pub open spec fn covers_flat(
    p: PrimModel,
    i0: int,
    i1: int,
    i2: int,
    tr: Vec3i,
    sc: Vec3i,
    r: int,
    conservative: bool,
    i: int,
) -> bool {
    covers(p, i0, i1, i2, tr, sc, r, conservative, ix(i, r), iy(i, r), iz(i, r))
}

/// The geometry channels after rasterizing one triangle (given by explicit
/// vertex indices): every covered cell takes the primitive's albedo and
/// emissive colour and the triangle's leading normal; all else is untouched.
pub open spec fn write_tri(
    m: VolModel,
    p: PrimModel,
    i0: int,
    i1: int,
    i2: int,
    conservative: bool,
) -> VolModel {
    let r = m.resolution as int;
    VolModel {
        albedo: Seq::new(
            m.albedo.len(),
            |i: int|
                if covers_flat(p, i0, i1, i2, m.translation, m.scaling, r, conservative, i) {
                    p.material.albedo
                } else {
                    m.albedo[i]
                },
        ),
        normal: Seq::new(
            m.normal.len(),
            |i: int|
                if covers_flat(p, i0, i1, i2, m.translation, m.scaling, r, conservative, i) {
                    p.normals[i0]
                } else {
                    m.normal[i]
                },
        ),
        emission: Seq::new(
            m.emission.len(),
            |i: int|
                if covers_flat(p, i0, i1, i2, m.translation, m.scaling, r, conservative, i) {
                    p.material.emissive
                } else {
                    m.emission[i]
                },
        ),
        ..m
    }
}

/// The geometry channels after rasterizing the first `n` triangles of a
/// primitive, in order (later writes win).
pub open spec fn voxelize_prim_upto(m: VolModel, p: PrimModel, n: int, conservative: bool) -> VolModel
    decreases n,
{
    if n <= 0 {
        m
    } else {
        let prev = voxelize_prim_upto(m, p, n - 1, conservative);
        write_tri(
            prev,
            p,
            p.indices[3 * (n - 1)] as int,
            p.indices[3 * (n - 1) + 1] as int,
            p.indices[3 * (n - 1) + 2] as int,
            conservative,
        )
    }
}

/// The geometry channels after rasterizing a whole primitive.
pub open spec fn voxelize_prim(m: VolModel, p: PrimModel, conservative: bool) -> VolModel {
    voxelize_prim_upto(m, p, p.tri_count(), conservative)
}

/// The geometry channels after rasterizing the first `n` primitives of a
/// scene, in submission order.
pub open spec fn voxelize_scene_upto(
    m: VolModel,
    prims: Seq<PrimModel>,
    n: int,
    conservative: bool,
) -> VolModel
    decreases n,
{
    if n <= 0 {
        m
    } else {
        voxelize_prim(voxelize_scene_upto(m, prims, n - 1, conservative), prims[n - 1], conservative)
    }
}

/// The geometry channels after rasterizing a whole scene.
pub open spec fn voxelize_scene(m: VolModel, prims: Seq<PrimModel>, conservative: bool) -> VolModel {
    voxelize_scene_upto(m, prims, prims.len() as int, conservative)
}

/// The flat cell `i` lies inside the cell-range box `b`.
pub open spec fn in_box_flat(i: int, r: int, b: (int, int, int, int, int, int)) -> bool {
    &&& b.0 <= ix(i, r) <= b.1
    &&& b.2 <= iy(i, r) <= b.3
    &&& b.4 <= iz(i, r) <= b.5
}

/// The geometry channels after an unconditional scatter-write of one value
/// over a cell-range box.
pub open spec fn box_write(
    m: VolModel,
    b: (int, int, int, int, int, int),
    a: Rgb8,
    nn: Nrm,
    e: Rgb8,
) -> VolModel {
    let r = m.resolution as int;
    VolModel {
        albedo: Seq::new(
            m.albedo.len(),
            |i: int|
                if in_box_flat(i, r, b) {
                    a
                } else {
                    m.albedo[i]
                },
        ),
        normal: Seq::new(
            m.normal.len(),
            |i: int|
                if in_box_flat(i, r, b) {
                    nn
                } else {
                    m.normal[i]
                },
        ),
        emission: Seq::new(
            m.emission.len(),
            |i: int|
                if in_box_flat(i, r, b) {
                    e
                } else {
                    m.emission[i]
                },
        ),
        ..m
    }
}

/// The geometry channels after the scatter-write of one point fragment.
pub open spec fn vertex_write(m: VolModel, w: Vec3i, a: Rgb8, nn: Nrm, e: Rgb8) -> VolModel {
    let r = m.resolution as int;
    VolModel {
        albedo: Seq::new(
            m.albedo.len(),
            |i: int|
                if vertex_cell_of(w, m.translation, m.scaling, r) == Some(
                    (ix(i, r), iy(i, r), iz(i, r)),
                ) {
                    a
                } else {
                    m.albedo[i]
                },
        ),
        normal: Seq::new(
            m.normal.len(),
            |i: int|
                if vertex_cell_of(w, m.translation, m.scaling, r) == Some(
                    (ix(i, r), iy(i, r), iz(i, r)),
                ) {
                    nn
                } else {
                    m.normal[i]
                },
        ),
        emission: Seq::new(
            m.emission.len(),
            |i: int|
                if vertex_cell_of(w, m.translation, m.scaling, r) == Some(
                    (ix(i, r), iy(i, r), iz(i, r)),
                ) {
                    e
                } else {
                    m.emission[i]
                },
        ),
        ..m
    }
}

/// The cell `(x, y, z)` was already visited by a scan that stands at
/// `(cx, cy, cz)` and walks x innermost, then y, then z.
pub open spec fn cell_seen(x: int, y: int, z: int, cx: int, cy: int, cz: int) -> bool {
    z < cz || (z == cz && (y < cy || (y == cy && x < cx)))
}

/// Smallest of three 64-bit values.
fn min3(a: i64, b: i64, c: i64) -> (m: i64)
    ensures
        m == spec_min3(a as int, b as int, c as int),
{
    if a <= b && a <= c {
        a
    } else if b <= c {
        b
    } else {
        c
    }
}

/// Largest of three 64-bit values.
fn max3(a: i64, b: i64, c: i64) -> (m: i64)
    ensures
        m == spec_max3(a as int, b as int, c as int),
{
    if a >= b && a >= c {
        a
    } else if b >= c {
        b
    } else {
        c
    }
}

/// One axis of the clamped cell range, in 64-bit arithmetic.
fn axis_range_exec(wmin: i64, wmax: i64, t: i64, s: i64, r: i64) -> (res: Option<(usize, usize)>)
    requires
        -2147483648 <= wmin <= 2147483648,
        -2147483648 <= wmax <= 2147483648,
        wmin <= wmax,
        -crate::math::COORD_LIMIT <= t <= crate::math::COORD_LIMIT,
        1 <= s <= crate::math::COORD_LIMIT,
        1 <= r <= 512,
    ensures
        res is Some <==> axis_range(wmin as int, wmax as int, t as int, s as int, r as int) is Some,
        res matches Some(lohi) ==> {
            &&& Some((lohi.0 as int, lohi.1 as int)) == axis_range(
                wmin as int,
                wmax as int,
                t as int,
                s as int,
                r as int,
            )
            &&& lohi.0 <= lohi.1 < r
        },
{
    let vmin = t - s / 2;
    let a = wmin - vmin;
    let b = wmax - vmin;
    if b < 0 || a >= s {
        return None;
    }
    proof {
        crate::math::lemma_mul_bound(a as int, r as int, 4294967296, 512);
        crate::math::lemma_mul_bound(b as int, r as int, 4294967296, 512);
        if a > 0 {
            vstd::arithmetic::div_mod::lemma_div_pos_is_pos(a * r, s as int);
            assert((a as int) * (r as int) < (s as int) * (r as int)) by (nonlinear_arith)
                requires
                    a < s,
                    0 < r,
            ;
            vstd::arithmetic::div_mod::lemma_multiply_divide_lt(
                (a as int) * (r as int),
                s as int,
                r as int,
            );
        }
        if b < s {
            vstd::arithmetic::div_mod::lemma_div_pos_is_pos(b * r, s as int);
            assert((b as int) * (r as int) < (s as int) * (r as int)) by (nonlinear_arith)
                requires
                    b < s,
                    0 < r,
            ;
            vstd::arithmetic::div_mod::lemma_multiply_divide_lt(
                (b as int) * (r as int),
                s as int,
                r as int,
            );
        }
        if 0 < a && a <= b {
            assert((a as int) * (r as int) <= (b as int) * (r as int)) by (nonlinear_arith)
                requires
                    a <= b,
                    0 < r,
            ;
            vstd::arithmetic::div_mod::lemma_div_is_ordered(
                (a as int) * (r as int),
                (b as int) * (r as int),
                s as int,
            );
        }
    }
    let lo: i64 = if a <= 0 {
        0
    } else {
        (a * r) / s
    };
    let hi: i64 = if b >= s {
        r - 1
    } else {
        (b * r) / s
    };
    Some((lo as usize, hi as usize))
}

/// `write_tri` touches only the three geometry grids; placement, resolution
/// and radiance pass through, so lengths and well-formedness survive.
pub proof fn lemma_write_tri_wf(m: VolModel, p: PrimModel, i0: int, i1: int, i2: int, cons: bool)
    requires
        m.wf(),
    ensures
        write_tri(m, p, i0, i1, i2, cons).wf(),
        write_tri(m, p, i0, i1, i2, cons) == (VolModel {
            albedo: write_tri(m, p, i0, i1, i2, cons).albedo,
            normal: write_tri(m, p, i0, i1, i2, cons).normal,
            emission: write_tri(m, p, i0, i1, i2, cons).emission,
            ..m
        }),
{
}

/// The same, folded over the triangles of a primitive.
pub proof fn lemma_voxelize_prim_upto_wf(m: VolModel, p: PrimModel, n: int, cons: bool)
    requires
        m.wf(),
    ensures
        voxelize_prim_upto(m, p, n, cons).wf(),
        voxelize_prim_upto(m, p, n, cons) == (VolModel {
            albedo: voxelize_prim_upto(m, p, n, cons).albedo,
            normal: voxelize_prim_upto(m, p, n, cons).normal,
            emission: voxelize_prim_upto(m, p, n, cons).emission,
            ..m
        }),
    decreases n,
{
    if n > 0 {
        lemma_voxelize_prim_upto_wf(m, p, n - 1, cons);
        lemma_write_tri_wf(
            voxelize_prim_upto(m, p, n - 1, cons),
            p,
            p.indices[3 * (n - 1)] as int,
            p.indices[3 * (n - 1) + 1] as int,
            p.indices[3 * (n - 1) + 2] as int,
            cons,
        );
    }
}

/// The same, folded over the primitives of a scene.
pub proof fn lemma_voxelize_scene_upto_wf(m: VolModel, prims: Seq<PrimModel>, n: int, cons: bool)
    requires
        m.wf(),
    ensures
        voxelize_scene_upto(m, prims, n, cons).wf(),
        voxelize_scene_upto(m, prims, n, cons) == (VolModel {
            albedo: voxelize_scene_upto(m, prims, n, cons).albedo,
            normal: voxelize_scene_upto(m, prims, n, cons).normal,
            emission: voxelize_scene_upto(m, prims, n, cons).emission,
            ..m
        }),
    decreases n,
{
    if n > 0 {
        lemma_voxelize_scene_upto_wf(m, prims, n - 1, cons);
        let prev = voxelize_scene_upto(m, prims, n - 1, cons);
        lemma_voxelize_prim_upto_wf(prev, prims[n - 1], prims[n - 1].tri_count(), cons);
    }
}

/// Writes one value over every cell of a cell-range box, as the fragments
/// of a conservatively rasterized triangle do.
fn fill_box(
    vol: &mut Volume,
    xlo: usize,
    xhi: usize,
    ylo: usize,
    yhi: usize,
    zlo: usize,
    zhi: usize,
    a: Rgb8,
    nn: Nrm,
    e: Rgb8,
)
    requires
        old(vol).wf(),
        xlo <= xhi < old(vol)@.resolution,
        ylo <= yhi < old(vol)@.resolution,
        zlo <= zhi < old(vol)@.resolution,
    ensures
        final(vol).wf(),
        final(vol)@ == box_write(
            old(vol)@,
            (xlo as int, xhi as int, ylo as int, yhi as int, zlo as int, zhi as int),
            a,
            nn,
            e,
        ),
{
    let ghost m0 = old(vol)@;
    let ghost b = (xlo as int, xhi as int, ylo as int, yhi as int, zlo as int, zhi as int);
    let ghost r = m0.resolution as int;
    let mut z: usize = zlo;
    while z <= zhi
        invariant
            vol.wf(),
            m0.wf(),
            r == m0.resolution,
            b == (xlo as int, xhi as int, ylo as int, yhi as int, zlo as int, zhi as int),
            xlo <= xhi < r,
            ylo <= yhi < r,
            zlo <= zhi < r,
            zlo <= z <= zhi + 1,
            vol@ == (VolModel {
                albedo: vol@.albedo,
                normal: vol@.normal,
                emission: vol@.emission,
                ..m0
            }),
            vol@.albedo.len() == m0.albedo.len(),
            vol@.normal.len() == m0.normal.len(),
            vol@.emission.len() == m0.emission.len(),
            forall|i: int|
                0 <= i < m0.albedo.len() ==> #[trigger] vol@.albedo[i] == (if in_box_flat(i, r, b)
                    && cell_seen(ix(i, r), iy(i, r), iz(i, r), xlo as int, ylo as int, z as int) {
                    a
                } else {
                    m0.albedo[i]
                }),
            forall|i: int|
                0 <= i < m0.normal.len() ==> #[trigger] vol@.normal[i] == (if in_box_flat(i, r, b)
                    && cell_seen(ix(i, r), iy(i, r), iz(i, r), xlo as int, ylo as int, z as int) {
                    nn
                } else {
                    m0.normal[i]
                }),
            forall|i: int|
                0 <= i < m0.emission.len() ==> #[trigger] vol@.emission[i] == (if in_box_flat(
                    i,
                    r,
                    b,
                ) && cell_seen(ix(i, r), iy(i, r), iz(i, r), xlo as int, ylo as int, z as int) {
                    e
                } else {
                    m0.emission[i]
                }),
        decreases zhi + 1 - z,
    {
        let mut y: usize = ylo;
        while y <= yhi
            invariant
                vol.wf(),
                m0.wf(),
                r == m0.resolution,
                b == (xlo as int, xhi as int, ylo as int, yhi as int, zlo as int, zhi as int),
                xlo <= xhi < r,
                ylo <= yhi < r,
                zlo <= zhi < r,
                zlo <= z <= zhi,
                ylo <= y <= yhi + 1,
                vol@ == (VolModel {
                    albedo: vol@.albedo,
                    normal: vol@.normal,
                    emission: vol@.emission,
                    ..m0
                }),
                vol@.albedo.len() == m0.albedo.len(),
                vol@.normal.len() == m0.normal.len(),
                vol@.emission.len() == m0.emission.len(),
                forall|i: int|
                    0 <= i < m0.albedo.len() ==> #[trigger] vol@.albedo[i] == (if in_box_flat(
                        i,
                        r,
                        b,
                    ) && cell_seen(ix(i, r), iy(i, r), iz(i, r), xlo as int, y as int, z as int) {
                        a
                    } else {
                        m0.albedo[i]
                    }),
                forall|i: int|
                    0 <= i < m0.normal.len() ==> #[trigger] vol@.normal[i] == (if in_box_flat(
                        i,
                        r,
                        b,
                    ) && cell_seen(ix(i, r), iy(i, r), iz(i, r), xlo as int, y as int, z as int) {
                        nn
                    } else {
                        m0.normal[i]
                    }),
                forall|i: int|
                    0 <= i < m0.emission.len() ==> #[trigger] vol@.emission[i] == (if in_box_flat(
                        i,
                        r,
                        b,
                    ) && cell_seen(ix(i, r), iy(i, r), iz(i, r), xlo as int, y as int, z as int) {
                        e
                    } else {
                        m0.emission[i]
                    }),
            decreases yhi + 1 - y,
        {
            let mut x: usize = xlo;
            while x <= xhi
                invariant
                    vol.wf(),
                    m0.wf(),
                    r == m0.resolution,
                    b == (xlo as int, xhi as int, ylo as int, yhi as int, zlo as int, zhi as int),
                    xlo <= xhi < r,
                    ylo <= yhi < r,
                    zlo <= zhi < r,
                    zlo <= z <= zhi,
                    ylo <= y <= yhi,
                    xlo <= x <= xhi + 1,
                    vol@ == (VolModel {
                        albedo: vol@.albedo,
                        normal: vol@.normal,
                        emission: vol@.emission,
                        ..m0
                    }),
                    vol@.albedo.len() == m0.albedo.len(),
                    vol@.normal.len() == m0.normal.len(),
                    vol@.emission.len() == m0.emission.len(),
                    forall|i: int|
                        0 <= i < m0.albedo.len() ==> #[trigger] vol@.albedo[i] == (if in_box_flat(
                            i,
                            r,
                            b,
                        ) && cell_seen(ix(i, r), iy(i, r), iz(i, r), x as int, y as int, z as int) {
                            a
                        } else {
                            m0.albedo[i]
                        }),
                    forall|i: int|
                        0 <= i < m0.normal.len() ==> #[trigger] vol@.normal[i] == (if in_box_flat(
                            i,
                            r,
                            b,
                        ) && cell_seen(ix(i, r), iy(i, r), iz(i, r), x as int, y as int, z as int) {
                            nn
                        } else {
                            m0.normal[i]
                        }),
                    forall|i: int|
                        0 <= i < m0.emission.len() ==> #[trigger] vol@.emission[i] == (if in_box_flat(
                            i,
                            r,
                            b,
                        ) && cell_seen(ix(i, r), iy(i, r), iz(i, r), x as int, y as int, z as int) {
                            e
                        } else {
                            m0.emission[i]
                        }),
                decreases xhi + 1 - x,
            {
                vol.write_geometry(x, y, z, a, nn, e);
                proof {
                    lemma_cell_index_inverse(r, x as int, y as int, z as int);
                    let idx = cell_index(r, x as int, y as int, z as int);
                                        assert forall|i: int| 0 <= i < m0.albedo.len() implies #[trigger] vol@.albedo[i] == (
                    if in_box_flat(i, r, b) && cell_seen(ix(i, r), iy(i, r), iz(i, r), x as int + 1, y as int, z as int) {
                        a
                    } else {
                        m0.albedo[i]
                    }) by {
                        lemma_cell_index_reconstruct(r, i);
                    }
                    assert forall|i: int| 0 <= i < m0.normal.len() implies #[trigger] vol@.normal[i] == (
                    if in_box_flat(i, r, b) && cell_seen(ix(i, r), iy(i, r), iz(i, r), x as int + 1, y as int, z as int) {
                        nn
                    } else {
                        m0.normal[i]
                    }) by {
                        lemma_cell_index_reconstruct(r, i);
                    }
                    assert forall|i: int| 0 <= i < m0.emission.len() implies #[trigger] vol@.emission[i] == (
                    if in_box_flat(i, r, b) && cell_seen(ix(i, r), iy(i, r), iz(i, r), x as int + 1, y as int, z as int) {
                        e
                    } else {
                        m0.emission[i]
                    }) by {
                        lemma_cell_index_reconstruct(r, i);
                    }
                }
                x = x + 1;
            }
            proof {
                                assert forall|i: int| 0 <= i < m0.albedo.len() implies #[trigger] vol@.albedo[i] == (
                if in_box_flat(i, r, b) && cell_seen(ix(i, r), iy(i, r), iz(i, r), xlo as int, y as int + 1, z as int) {
                    a
                } else {
                    m0.albedo[i]
                }) by {
                    lemma_cell_index_reconstruct(r, i);
                }
                assert forall|i: int| 0 <= i < m0.normal.len() implies #[trigger] vol@.normal[i] == (
                if in_box_flat(i, r, b) && cell_seen(ix(i, r), iy(i, r), iz(i, r), xlo as int, y as int + 1, z as int) {
                    nn
                } else {
                    m0.normal[i]
                }) by {
                    lemma_cell_index_reconstruct(r, i);
                }
                assert forall|i: int| 0 <= i < m0.emission.len() implies #[trigger] vol@.emission[i] == (
                if in_box_flat(i, r, b) && cell_seen(ix(i, r), iy(i, r), iz(i, r), xlo as int, y as int + 1, z as int) {
                    e
                } else {
                    m0.emission[i]
                }) by {
                    lemma_cell_index_reconstruct(r, i);
                }
            }
            y = y + 1;
        }
        proof {
                        assert forall|i: int| 0 <= i < m0.albedo.len() implies #[trigger] vol@.albedo[i] == (
            if in_box_flat(i, r, b) && cell_seen(ix(i, r), iy(i, r), iz(i, r), xlo as int, ylo as int, z as int + 1) {
                a
            } else {
                m0.albedo[i]
            }) by {
                lemma_cell_index_reconstruct(r, i);
            }
            assert forall|i: int| 0 <= i < m0.normal.len() implies #[trigger] vol@.normal[i] == (
            if in_box_flat(i, r, b) && cell_seen(ix(i, r), iy(i, r), iz(i, r), xlo as int, ylo as int, z as int + 1) {
                nn
            } else {
                m0.normal[i]
            }) by {
                lemma_cell_index_reconstruct(r, i);
            }
            assert forall|i: int| 0 <= i < m0.emission.len() implies #[trigger] vol@.emission[i] == (
            if in_box_flat(i, r, b) && cell_seen(ix(i, r), iy(i, r), iz(i, r), xlo as int, ylo as int, z as int + 1) {
                e
            } else {
                m0.emission[i]
            }) by {
                lemma_cell_index_reconstruct(r, i);
            }
        }
        z = z + 1;
    }
    proof {
        assert(vol@.albedo =~= box_write(m0, b, a, nn, e).albedo);
        assert(vol@.normal =~= box_write(m0, b, a, nn, e).normal);
        assert(vol@.emission =~= box_write(m0, b, a, nn, e).emission);
        assert(vol@ =~~= box_write(m0, b, a, nn, e));
    }
}

/// Writes the scatter fragment of one world-space vertex, if it lands
/// inside the volume.
fn write_vertex_fragment(vol: &mut Volume, w: Vec3i, a: Rgb8, nn: Nrm, e: Rgb8)
    requires
        old(vol).wf(),
        w.in_range(crate::volume::WORLD_LIMIT as int),
    ensures
        final(vol).wf(),
        final(vol)@ == vertex_write(old(vol)@, w, a, nn, e),
{
    let ghost m0 = old(vol)@;
    let ghost r = m0.resolution as int;
    match vol.world_to_voxel(w) {
        Some((x, y, z)) => {
            vol.write_geometry(x, y, z, a, nn, e);
            proof {
                lemma_cell_index_inverse(r, x as int, y as int, z as int);
                let idx = cell_index(r, x as int, y as int, z as int);
                assert forall|i: int|
                    0 <= i < m0.albedo.len() && i != idx implies vertex_cell_of(
                    w,
                    m0.translation,
                    m0.scaling,
                    r,
                ) != Some((ix(i, r), iy(i, r), iz(i, r))) by {
                    lemma_cell_index_reconstruct(r, i);
                }
                assert(vol@.albedo =~= vertex_write(m0, w, a, nn, e).albedo);
                assert(vol@.normal =~= vertex_write(m0, w, a, nn, e).normal);
                assert(vol@.emission =~= vertex_write(m0, w, a, nn, e).emission);
                assert(vol@ =~~= vertex_write(m0, w, a, nn, e));
            }
        },
        None => {
            proof {
                assert(vol@.albedo =~= vertex_write(m0, w, a, nn, e).albedo);
                assert(vol@.normal =~= vertex_write(m0, w, a, nn, e).normal);
                assert(vol@.emission =~= vertex_write(m0, w, a, nn, e).emission);
                assert(vol@ =~~= vertex_write(m0, w, a, nn, e));
            }
        },
    }
}

/// Rasterizes one triangle, given by explicit vertex indices, under the
/// selected mode.
pub fn rasterize_triangle(
    vol: &mut Volume,
    prim: &GpuPrimitive,
    i0: usize,
    i1: usize,
    i2: usize,
    conservative: bool,
)
    requires
        old(vol).wf(),
        prim.wf(),
        i0 < prim@.positions.len(),
        i1 < prim@.positions.len(),
        i2 < prim@.positions.len(),
    ensures
        final(vol).wf(),
        final(vol)@ == write_tri(old(vol)@, prim@, i0 as int, i1 as int, i2 as int, conservative),
{
    let ghost m0 = old(vol)@;
    let ghost r = m0.resolution as int;
    let w0 = prim.world_vertex(i0);
    let w1 = prim.world_vertex(i1);
    let w2 = prim.world_vertex(i2);
    let albedo = prim.material().albedo;
    let emissive = prim.material().emissive;
    let nrm = prim.normal_of(i0);
    if conservative {
        let t = vol.translation();
        let s = vol.scaling();
        let res = vol.resolution() as i64;
        let rx = axis_range_exec(min3(w0.x, w1.x, w2.x), max3(w0.x, w1.x, w2.x), t.x, s.x, res);
        let ry = axis_range_exec(min3(w0.y, w1.y, w2.y), max3(w0.y, w1.y, w2.y), t.y, s.y, res);
        let rz = axis_range_exec(min3(w0.z, w1.z, w2.z), max3(w0.z, w1.z, w2.z), t.z, s.z, res);
        match (rx, ry, rz) {
            (Some(bx), Some(by), Some(bz)) => {
                fill_box(vol, bx.0, bx.1, by.0, by.1, bz.0, bz.1, albedo, nrm, emissive);
                proof {
                    let wt = write_tri(m0, prim@, i0 as int, i1 as int, i2 as int, true);
                    assert(vol@.albedo =~= wt.albedo);
                    assert(vol@.normal =~= wt.normal);
                    assert(vol@.emission =~= wt.emission);
                    assert(vol@ =~~= wt);
                }
            },
            _ => {
                proof {
                    let wt = write_tri(m0, prim@, i0 as int, i1 as int, i2 as int, true);
                    assert(vol@.albedo =~= wt.albedo);
                    assert(vol@.normal =~= wt.normal);
                    assert(vol@.emission =~= wt.emission);
                    assert(vol@ =~~= wt);
                }
            },
        }
    } else {
        write_vertex_fragment(vol, w0, albedo, nrm, emissive);
        write_vertex_fragment(vol, w1, albedo, nrm, emissive);
        write_vertex_fragment(vol, w2, albedo, nrm, emissive);
        proof {
            let wt = write_tri(m0, prim@, i0 as int, i1 as int, i2 as int, false);
            assert(vol@.albedo =~= wt.albedo);
            assert(vol@.normal =~= wt.normal);
            assert(vol@.emission =~= wt.emission);
            assert(vol@ =~~= wt);
        }
    }
}

/// A triangle survives classification when it would cover at least one
/// cell under the selected rasterization mode.
pub open spec fn classify_covered(
    p: PrimModel,
    i0: int,
    i1: int,
    i2: int,
    tr: Vec3i,
    sc: Vec3i,
    r: int,
    conservative: bool,
) -> bool {
    if conservative {
        tri_box(p, i0, i1, i2, tr, sc, r) is Some
    } else {
        ||| vertex_cell_of(world_vertex(p, i0), tr, sc, r) is Some
        ||| vertex_cell_of(world_vertex(p, i1), tr, sc, r) is Some
        ||| vertex_cell_of(world_vertex(p, i2), tr, sc, r) is Some
    }
}

/// The compacted index list after classifying the first `n` triangles of a
/// primitive: the vertex-index triples of exactly the survivors, in order.
pub open spec fn compact_upto(
    p: PrimModel,
    tr: Vec3i,
    sc: Vec3i,
    r: int,
    conservative: bool,
    n: int,
) -> Seq<u32>
    decreases n,
{
    if n <= 0 {
        Seq::empty()
    } else {
        let rest = compact_upto(p, tr, sc, r, conservative, n - 1);
        if classify_covered(
            p,
            p.indices[3 * (n - 1)] as int,
            p.indices[3 * (n - 1) + 1] as int,
            p.indices[3 * (n - 1) + 2] as int,
            tr,
            sc,
            r,
            conservative,
        ) {
            rest + seq![
                p.indices[3 * (n - 1)],
                p.indices[3 * (n - 1) + 1],
                p.indices[3 * (n - 1) + 2],
            ]
        } else {
            rest
        }
    }
}

/// The geometry channels after rasterizing the first `n` triangles of a
/// compacted index list over a primitive's vertex arrays.
pub open spec fn voxelize_list_upto(
    m: VolModel,
    p: PrimModel,
    data: Seq<u32>,
    n: int,
    conservative: bool,
) -> VolModel
    decreases n,
{
    if n <= 0 {
        m
    } else {
        write_tri(
            voxelize_list_upto(m, p, data, n - 1, conservative),
            p,
            data[3 * (n - 1)] as int,
            data[3 * (n - 1) + 1] as int,
            data[3 * (n - 1) + 2] as int,
            conservative,
        )
    }
}

/// The geometry channels after an indirect draw of a whole compacted list.
pub open spec fn voxelize_list(m: VolModel, p: PrimModel, data: Seq<u32>, conservative: bool) -> VolModel {
    voxelize_list_upto(m, p, data, data.len() as int / 3, conservative)
}

/// A triangle that would cover no cell writes nothing.
pub proof fn lemma_write_tri_noop(m: VolModel, p: PrimModel, i0: int, i1: int, i2: int, cons: bool)
    requires
        !classify_covered(p, i0, i1, i2, m.translation, m.scaling, m.resolution as int, cons),
    ensures
        write_tri(m, p, i0, i1, i2, cons) == m,
{
    let wt = write_tri(m, p, i0, i1, i2, cons);
    assert(wt.albedo =~= m.albedo);
    assert(wt.normal =~= m.normal);
    assert(wt.emission =~= m.emission);
    assert(wt =~~= m);
}

/// A fold over a list's first `n` triangles reads only its first `3 * n`
/// entries.
pub proof fn lemma_voxelize_list_prefix(
    m: VolModel,
    p: PrimModel,
    d1: Seq<u32>,
    d2: Seq<u32>,
    n: int,
    cons: bool,
)
    requires
        0 <= 3 * n <= d1.len(),
        d1.len() <= d2.len(),
        forall|i: int| 0 <= i < 3 * n ==> d1[i] == d2[i],
    ensures
        voxelize_list_upto(m, p, d1, n, cons) == voxelize_list_upto(m, p, d2, n, cons),
    decreases n,
{
    if n > 0 {
        lemma_voxelize_list_prefix(m, p, d1, d2, n - 1, cons);
    }
}

/// The compacted list is faithful: rasterizing exactly the survivors gives
/// the same grids as rasterizing every triangle, because the dropped ones
/// write nothing.  The list stays well formed: triples of in-range indices.
pub proof fn lemma_compact_faithful(m: VolModel, p: PrimModel, cons: bool, n: int)
    requires
        m.wf(),
        p.wf(),
        0 <= n <= p.tri_count(),
    ensures
        compact_upto(p, m.translation, m.scaling, m.resolution as int, cons, n).len() % 3 == 0,
        compact_upto(p, m.translation, m.scaling, m.resolution as int, cons, n).len() <= 3 * n,
        forall|i: int|
            0 <= i < compact_upto(p, m.translation, m.scaling, m.resolution as int, cons, n).len()
                ==> compact_upto(p, m.translation, m.scaling, m.resolution as int, cons, n)[i]
                < p.positions.len(),
        voxelize_list(
            m,
            p,
            compact_upto(p, m.translation, m.scaling, m.resolution as int, cons, n),
            cons,
        ) == voxelize_prim_upto(m, p, n, cons),
    decreases n,
{
    let tr = m.translation;
    let sc = m.scaling;
    let r = m.resolution as int;
    if n > 0 {
        lemma_compact_faithful(m, p, cons, n - 1);
        let c1 = compact_upto(p, tr, sc, r, cons, n - 1);
        let full = compact_upto(p, tr, sc, r, cons, n);
        let k1 = c1.len() as int / 3;
        assert(c1.len() == 3 * k1) by {
            vstd::arithmetic::div_mod::lemma_fundamental_div_mod(c1.len() as int, 3);
        }
        let prev = voxelize_prim_upto(m, p, n - 1, cons);
        lemma_voxelize_prim_upto_wf(m, p, n - 1, cons);
        let j0 = p.indices[3 * (n - 1)] as int;
        let j1 = p.indices[3 * (n - 1) + 1] as int;
        let j2 = p.indices[3 * (n - 1) + 2] as int;
        assert(3 * (n - 1) + 2 < p.indices.len()) by {
            vstd::arithmetic::div_mod::lemma_fundamental_div_mod(p.indices.len() as int, 3);
        }
        if classify_covered(p, j0, j1, j2, tr, sc, r, cons) {
            assert(full == c1 + seq![
                p.indices[3 * (n - 1)],
                p.indices[3 * (n - 1) + 1],
                p.indices[3 * (n - 1) + 2],
            ]);
            assert(full.len() == c1.len() + 3);
            assert(full.len() as int / 3 == k1 + 1) by {
                assert(full.len() == 3 * (k1 + 1));
                vstd::arithmetic::div_mod::lemma_div_multiples_vanish(k1 + 1, 3);
            }
            lemma_voxelize_list_prefix(m, p, c1, full, k1, cons);
            assert(voxelize_list_upto(m, p, full, k1 + 1, cons) == write_tri(
                voxelize_list_upto(m, p, full, k1, cons),
                p,
                full[3 * k1] as int,
                full[3 * k1 + 1] as int,
                full[3 * k1 + 2] as int,
                cons,
            ));
            assert(full[3 * k1] == p.indices[3 * (n - 1)]);
            assert(full[3 * k1 + 1] == p.indices[3 * (n - 1) + 1]);
            assert(full[3 * k1 + 2] == p.indices[3 * (n - 1) + 2]);
            assert(voxelize_list(m, p, c1, cons) == voxelize_list_upto(m, p, c1, k1, cons));
        } else {
            assert(full == c1);
            assert(prev.translation == tr && prev.scaling == sc && prev.resolution == m.resolution);
            lemma_write_tri_noop(prev, p, j0, j1, j2, cons);
        }
    } else {
        assert(compact_upto(p, tr, sc, r, cons, 0) =~= Seq::<u32>::empty());
    }
}

/// Classification: decides whether one triangle survives, exactly as the
/// voxelize pass would cover cells with it.
fn triangle_survives(
    vol: &Volume,
    prim: &GpuPrimitive,
    i0: usize,
    i1: usize,
    i2: usize,
    conservative: bool,
) -> (c: bool)
    requires
        vol.wf(),
        prim.wf(),
        i0 < prim@.positions.len(),
        i1 < prim@.positions.len(),
        i2 < prim@.positions.len(),
    ensures
        c == classify_covered(
            prim@,
            i0 as int,
            i1 as int,
            i2 as int,
            vol@.translation,
            vol@.scaling,
            vol@.resolution as int,
            conservative,
        ),
{
    let w0 = prim.world_vertex(i0);
    let w1 = prim.world_vertex(i1);
    let w2 = prim.world_vertex(i2);
    if conservative {
        let t = vol.translation();
        let s = vol.scaling();
        let res = vol.resolution() as i64;
        let rx = axis_range_exec(min3(w0.x, w1.x, w2.x), max3(w0.x, w1.x, w2.x), t.x, s.x, res);
        let ry = axis_range_exec(min3(w0.y, w1.y, w2.y), max3(w0.y, w1.y, w2.y), t.y, s.y, res);
        let rz = axis_range_exec(min3(w0.z, w1.z, w2.z), max3(w0.z, w1.z, w2.z), t.z, s.z, res);
        rx.is_some() && ry.is_some() && rz.is_some()
    } else {
        vol.world_to_voxel(w0).is_some() || vol.world_to_voxel(w1).is_some() || vol.world_to_voxel(
            w2,
        ).is_some()
    }
}

/// The classify pass of the hybrid scheme for one primitive: resets the
/// shared counter, appends each surviving triangle's indices to the
/// compaction buffer, and records the indirect-draw command describing
/// exactly that subset.
pub fn classify_primitive(
    vol: &Volume,
    prim: &GpuPrimitive,
    conservative: bool,
    counter: &mut AtomicCounter,
    indices: &mut IndicesBuffer,
    command: &mut IndirectCommand,
)
    requires
        vol.wf(),
        prim.wf(),
    ensures
        final(indices).spec_data() == compact_upto(
            prim@,
            vol@.translation,
            vol@.scaling,
            vol@.resolution as int,
            conservative,
            prim@.tri_count(),
        ),
        3 * final(counter).spec_value() == final(indices).spec_data().len(),
        *final(command) == (IndirectCommand {
            count: final(indices).spec_data().len() as u32,
            prim_count: 1,
            first_index: 0,
            base_vertex: 0,
            base_instance: 0,
        }),
{
    counter.set_value(0);
    indices.reset();
    let count = prim.count_triangles();
    let mut t: usize = 0;
    while t < count
        invariant
            vol.wf(),
            prim.wf(),
            t <= count,
            count == prim@.tri_count(),
            indices.spec_data() == compact_upto(
                prim@,
                vol@.translation,
                vol@.scaling,
                vol@.resolution as int,
                conservative,
                t as int,
            ),
            3 * counter.spec_value() == indices.spec_data().len(),
            indices.spec_data().len() <= 3 * t,
        decreases count - t,
    {
        let idx = prim.triangle_indices(t);
        if triangle_survives(
            vol,
            prim,
            idx.0 as usize,
            idx.1 as usize,
            idx.2 as usize,
            conservative,
        ) {
            let _slot = counter.claim();
            indices.append_triangle(idx.0, idx.1, idx.2);
        }
        t = t + 1;
    }
    let n = indices.len();
    command.record(n as u32);
}

/// The voxelize pass of the hybrid scheme for one primitive: one indirect
/// draw consuming the compacted index list and command record just built.
pub fn draw_indirect(
    vol: &mut Volume,
    prim: &GpuPrimitive,
    indices: &IndicesBuffer,
    command: &IndirectCommand,
    conservative: bool,
)
    requires
        old(vol).wf(),
        prim.wf(),
        command.count == indices.spec_data().len(),
        indices.spec_data().len() % 3 == 0,
        forall|i: int|
            0 <= i < indices.spec_data().len() ==> (#[trigger] indices.spec_data()[i])
                < prim@.positions.len(),
    ensures
        final(vol).wf(),
        final(vol)@ == voxelize_list(old(vol)@, prim@, indices.spec_data(), conservative),
{
    let ghost m0 = old(vol)@;
    let ghost data = indices.spec_data();
    let total = command.count as usize;
    let tris = total / 3;
    proof {
        vstd::arithmetic::div_mod::lemma_fundamental_div_mod(data.len() as int, 3);
    }
    let mut j: usize = 0;
    while j < tris
        invariant
            vol.wf(),
            prim.wf(),
            j <= tris,
            data == indices.spec_data(),
            data.len() <= 0xffffffff,
            data.len() == 3 * tris,
            tris == data.len() as int / 3,
            forall|i: int| 0 <= i < data.len() ==> (#[trigger] data[i]) < prim@.positions.len(),
            vol@ == voxelize_list_upto(m0, prim@, data, j as int, conservative),
        decreases tris - j,
    {
        let i0 = indices.index_at(3 * j);
        let i1 = indices.index_at(3 * j + 1);
        let i2 = indices.index_at(3 * j + 2);
        rasterize_triangle(vol, prim, i0 as usize, i1 as usize, i2 as usize, conservative);
        j = j + 1;
    }
}

/// Rasterizes a whole primitive, triangle by triangle in index order.
pub fn voxelize_primitive(vol: &mut Volume, prim: &GpuPrimitive, conservative: bool)
    requires
        old(vol).wf(),
        prim.wf(),
    ensures
        final(vol).wf(),
        final(vol)@ == voxelize_prim(old(vol)@, prim@, conservative),
{
    let ghost m0 = old(vol)@;
    let count = prim.count_triangles();
    let mut t: usize = 0;
    while t < count
        invariant
            vol.wf(),
            prim.wf(),
            t <= count,
            count == prim@.tri_count(),
            vol@ == voxelize_prim_upto(m0, prim@, t as int, conservative),
        decreases count - t,
    {
        let idx = prim.triangle_indices(t);
        rasterize_triangle(
            vol,
            prim,
            idx.0 as usize,
            idx.1 as usize,
            idx.2 as usize,
            conservative,
        );
        t = t + 1;
    }
}

} // verus!
