//! Scene geometry in the form the per-frame passes consume: a primitive with
//! its attribute arrays, resolved material colours and instance transform,
//! and the resolved material itself.

use vstd::prelude::*;

use crate::color::{Nrm, Rgb8};
use crate::material::Material;
use crate::math::{tdiv, Vec3i, COORD_LIMIT, FP_ONE};
use crate::model::Primitive;

verus! {

/// A material resolved for drawing: the base colour of each texture slot,
/// and the emissive colour deposited during voxelization.
#[derive(Clone, Copy, PartialEq, Eq, Structural, Debug)]
pub struct GpuMaterial {
    pub albedo: Rgb8,
    pub metaghness: Rgb8,
    pub normal: Rgb8,
    pub occlusion: Rgb8,
    pub emissive: Rgb8,
}

impl GpuMaterial {
    /// Resolves a material's texture slots to their base colours.
    pub fn new(material: &Material) -> (m: GpuMaterial)
        ensures
            m.albedo == material.albedo.spec_color(),
            m.metaghness == material.metaghness.spec_color(),
            m.normal == material.normal.spec_color(),
            m.occlusion == material.occlusion.spec_color(),
            m.emissive == material.spec_emissive(),
    {
        GpuMaterial {
            albedo: material.albedo().color(),
            metaghness: material.metaghness().color(),
            normal: material.normal().color(),
            occlusion: material.occlusion().color(),
            emissive: material.emissive(),
        }
    }

    pub fn albedo(&self) -> (c: Rgb8)
        ensures
            c == self.albedo,
    {
        self.albedo
    }

    pub fn metaghness(&self) -> (c: Rgb8)
        ensures
            c == self.metaghness,
    {
        self.metaghness
    }

    pub fn normal(&self) -> (c: Rgb8)
        ensures
            c == self.normal,
    {
        self.normal
    }

    pub fn occlusion(&self) -> (c: Rgb8)
        ensures
            c == self.occlusion,
    {
        self.occlusion
    }
}

/// Mathematical model of a [`GpuPrimitive`].
pub struct PrimModel {
    pub positions: Seq<Vec3i>,
    pub normals: Seq<Nrm>,
    pub indices: Seq<u32>,
    pub material: GpuMaterial,
    pub translation: Vec3i,
    pub scale: Vec3i,
}

impl PrimModel {
    /// Structural validity: triangles over in-range attribute arrays, with a
    /// bounded instance transform.
    pub open spec fn wf(self) -> bool {
        &&& self.indices.len() % 3 == 0
        &&& self.indices.len() <= 0x7fffffff
        &&& self.normals.len() == self.positions.len()
        &&& forall|i: int| 0 <= i < self.indices.len() ==> (#[trigger] self.indices[i]) < self.positions.len()
        &&& forall|j: int|
            0 <= j < self.positions.len() ==> (#[trigger] self.positions[j]).in_range(
                COORD_LIMIT as int,
            )
        &&& self.translation.in_range(COORD_LIMIT as int)
        &&& self.scale.in_range(COORD_LIMIT as int)
    }

    /// Number of triangles.
    pub open spec fn tri_count(self) -> int {
        self.indices.len() as int / 3
    }
}

/// A model-space point taken to world space: scaled by the instance scale
/// (in [`FP_ONE`] units), then translated.
pub open spec fn transformed(p: Vec3i, translation: Vec3i, scale: Vec3i) -> Vec3i {
    Vec3i {
        x: (translation.x + tdiv(p.x * scale.x, FP_ONE as int)) as i64,
        y: (translation.y + tdiv(p.y * scale.y, FP_ONE as int)) as i64,
        z: (translation.z + tdiv(p.z * scale.z, FP_ONE as int)) as i64,
    }
}

/// World-space position of vertex `j` of a primitive.
pub open spec fn world_vertex(p: PrimModel, j: int) -> Vec3i {
    transformed(p.positions[j], p.translation, p.scale)
}

/// Bound on every world-space vertex coordinate: scale and position both
/// bounded gives `|p*s|/FP_ONE <= COORD_LIMIT^2 / FP_ONE`, plus the
/// translation.
pub proof fn lemma_transformed_bound(p: Vec3i, translation: Vec3i, scale: Vec3i)
    requires
        p.in_range(COORD_LIMIT as int),
        translation.in_range(COORD_LIMIT as int),
        scale.in_range(COORD_LIMIT as int),
    ensures
        transformed(p, translation, scale).in_range(1074790400),
{
    lemma_tdiv_axis(p.x as int, scale.x as int, translation.x as int);
    lemma_tdiv_axis(p.y as int, scale.y as int, translation.y as int);
    lemma_tdiv_axis(p.z as int, scale.z as int, translation.z as int);
}

/// One axis of the transform stays within `COORD_LIMIT^2/FP_ONE +
/// COORD_LIMIT`.
proof fn lemma_tdiv_axis(p: int, s: int, t: int)
    requires
        -COORD_LIMIT <= p <= COORD_LIMIT,
        -COORD_LIMIT <= s <= COORD_LIMIT,
        -COORD_LIMIT <= t <= COORD_LIMIT,
    ensures
        -1074790400 <= t + tdiv(p * s, FP_ONE as int) <= 1074790400,
{
    crate::math::lemma_mul_bound(p, s, COORD_LIMIT as int, COORD_LIMIT as int);
    let prod = p * s;
    if prod >= 0 {
        crate::math::lemma_div_pos_bounds(prod, FP_ONE as int);
        vstd::arithmetic::div_mod::lemma_div_is_ordered(prod, 1099511627776, FP_ONE as int);
        assert(1099511627776int / 1024 == 1073741824);
    } else {
        crate::math::lemma_div_pos_bounds(-prod, FP_ONE as int);
        vstd::arithmetic::div_mod::lemma_div_is_ordered(-prod, 1099511627776, FP_ONE as int);
        assert(1099511627776int / 1024 == 1073741824);
    }
}

/// A primitive ready for the per-frame passes: validated attribute arrays,
/// its resolved material, and the per-instance transform.
pub struct GpuPrimitive {
    positions: Vec<Vec3i>,
    normals: Vec<Nrm>,
    indices: Vec<u32>,
    material: GpuMaterial,
    translation: Vec3i,
    scale: Vec3i,
}

impl View for GpuPrimitive {
    type V = PrimModel;

    closed spec fn view(&self) -> PrimModel {
        PrimModel {
            positions: self.positions@,
            normals: self.normals@,
            indices: self.indices@,
            material: self.material,
            translation: self.translation,
            scale: self.scale,
        }
    }
}

impl GpuPrimitive {
    pub open spec fn wf(&self) -> bool {
        self@.wf()
    }

    /// Takes a validated scene primitive to its drawable form under the
    /// instance transform of its mesh.
    pub fn new(primitive: &Primitive, material: GpuMaterial, position: Vec3i, scale: Vec3i) -> (p:
        GpuPrimitive)
        requires
            primitive.wf(),
            position.in_range(COORD_LIMIT as int),
            scale.in_range(COORD_LIMIT as int),
        ensures
            p.wf(),
            p@.positions == primitive.positions@,
            p@.normals == primitive.normals@,
            p@.indices == primitive.indices@,
            p@.material == material,
            p@.translation == position,
            p@.scale == scale,
    {
        GpuPrimitive {
            positions: clone_vec(&primitive.positions),
            normals: clone_vec(&primitive.normals),
            indices: clone_vec(&primitive.indices),
            material,
            translation: position,
            scale,
        }
    }

    /// The unit-cube point-cloud primitive used to draw one point per voxel
    /// cell: one zero vertex per cell, positioned by the draw itself.
    pub fn from_volume(resolution: usize) -> (p: GpuPrimitive)
        requires
            resolution <= 512,
        ensures
            p.wf(),
            p@.positions.len() == resolution * resolution * resolution,
            forall|j: int|
                0 <= j < p@.positions.len() ==> p@.positions[j] == (Vec3i { x: 0i64, y: 0i64, z: 0i64 }),
            p@.indices.len() == 0,
    {
        proof {
            assert(resolution * resolution <= 262144 && resolution * resolution * resolution
                <= 134217728) by (nonlinear_arith)
                requires
                    resolution <= 512,
            ;
        }
        let cells = resolution * resolution * resolution;
        let mut positions: Vec<Vec3i> = Vec::new();
        let mut normals: Vec<Nrm> = Vec::new();
        let mut k: usize = 0;
        while k < cells
            invariant
                k <= cells,
                positions@.len() == k,
                normals@.len() == k,
                forall|j: int|
                    0 <= j < k ==> positions@[j] == (Vec3i { x: 0i64, y: 0i64, z: 0i64 }),
            decreases cells - k,
        {
            positions.push(Vec3i::new(0, 0, 0));
            normals.push(Nrm::zero());
            k = k + 1;
        }
        GpuPrimitive {
            positions,
            normals,
            indices: Vec::new(),
            material: GpuMaterial {
                albedo: Rgb8::zero(),
                metaghness: Rgb8::zero(),
                normal: Rgb8::zero(),
                occlusion: Rgb8::zero(),
                emissive: Rgb8::zero(),
            },
            translation: Vec3i::new(0, 0, 0),
            scale: Vec3i::new(FP_ONE, FP_ONE, FP_ONE),
        }
    }

    /// Number of entries in the position array.
    pub fn count_positions(&self) -> (n: usize)
        ensures
            n == self@.positions.len(),
    {
        self.positions.len()
    }

    /// Number of vertices an indexed draw of the primitive consumes.
    pub fn count_vertices(&self) -> (n: usize)
        ensures
            n == self@.indices.len(),
    {
        self.indices.len()
    }

    /// Number of triangles.
    pub fn count_triangles(&self) -> (n: usize)
        requires
            self.wf(),
        ensures
            n == self@.tri_count(),
    {
        self.indices.len() / 3
    }

    pub fn material(&self) -> (m: GpuMaterial)
        ensures
            m == self@.material,
    {
        self.material
    }

    pub fn translation(&self) -> (t: Vec3i)
        ensures
            t == self@.translation,
    {
        self.translation
    }

    pub fn scaling(&self) -> (s: Vec3i)
        ensures
            s == self@.scale,
    {
        self.scale
    }

    /// Moves the instance; out-of-range translations are rejected.
    pub fn set_translation(&mut self, t: Vec3i) -> (ok: bool)
        requires
            old(self).wf(),
        ensures
            final(self).wf(),
            ok <==> t.in_range(COORD_LIMIT as int),
            ok ==> final(self)@ == (PrimModel { translation: t, ..old(self)@ }),
            !ok ==> *final(self) == *old(self),
    {
        if -COORD_LIMIT <= t.x && t.x <= COORD_LIMIT && -COORD_LIMIT <= t.y && t.y <= COORD_LIMIT
            && -COORD_LIMIT <= t.z && t.z <= COORD_LIMIT {
            self.translation = t;
            true
        } else {
            false
        }
    }

    /// Rescales the instance; out-of-range scales are rejected.
    pub fn set_scaling(&mut self, s: Vec3i) -> (ok: bool)
        requires
            old(self).wf(),
        ensures
            final(self).wf(),
            ok <==> s.in_range(COORD_LIMIT as int),
            ok ==> final(self)@ == (PrimModel { scale: s, ..old(self)@ }),
            !ok ==> *final(self) == *old(self),
    {
        if -COORD_LIMIT <= s.x && s.x <= COORD_LIMIT && -COORD_LIMIT <= s.y && s.y <= COORD_LIMIT
            && -COORD_LIMIT <= s.z && s.z <= COORD_LIMIT {
            self.scale = s;
            true
        } else {
            false
        }
    }

    /// World-space position of one vertex.
    pub fn world_vertex(&self, j: usize) -> (w: Vec3i)
        requires
            self.wf(),
            j < self@.positions.len(),
        ensures
            w == world_vertex(self@, j as int),
            w.in_range(1074790400),
    {
        proof {
            lemma_transformed_bound(self@.positions[j as int], self@.translation, self@.scale);
        }
        let p = self.positions[j];
        Vec3i {
            x: self.translation.x + scale_axis(p.x, self.scale.x),
            y: self.translation.y + scale_axis(p.y, self.scale.y),
            z: self.translation.z + scale_axis(p.z, self.scale.z),
        }
    }

    /// The three vertex indices of one triangle.
    pub fn triangle_indices(&self, t: usize) -> (idx: (u32, u32, u32))
        requires
            self.wf(),
            t < self@.tri_count(),
        ensures
            idx.0 == self@.indices[3 * t],
            idx.1 == self@.indices[3 * t + 1],
            idx.2 == self@.indices[3 * t + 2],
            idx.0 < self@.positions.len(),
            idx.1 < self@.positions.len(),
            idx.2 < self@.positions.len(),
    {
        let _len = self.indices.len();
        proof {
            vstd::arithmetic::div_mod::lemma_fundamental_div_mod(self@.indices.len() as int, 3);
            assert(self@.indices.len() == 3 * (self@.indices.len() as int / 3));
            assert(3 * (t as int) + 2 < 3 * (self@.indices.len() as int / 3));
        }
        let i0 = self.indices[3 * t];
        let i1 = self.indices[3 * t + 1];
        let i2 = self.indices[3 * t + 2];
        (i0, i1, i2)
    }

    /// The normal of one vertex.
    pub fn normal_of(&self, j: usize) -> (n: Nrm)
        requires
            self.wf(),
            j < self@.normals.len(),
        ensures
            n == self@.normals[j as int],
    {
        self.normals[j]
    }
}

/// One axis of the instance scale, with truncating fixed-point division.
fn scale_axis(p: i64, s: i64) -> (w: i64)
    requires
        -COORD_LIMIT <= p <= COORD_LIMIT,
        -COORD_LIMIT <= s <= COORD_LIMIT,
    ensures
        w == tdiv(p * s, FP_ONE as int),
        -1073741824 <= w <= 1073741824,
{
    proof {
        crate::math::lemma_mul_bound(p as int, s as int, COORD_LIMIT as int, COORD_LIMIT as int);
        crate::math::lemma_div_pos_bounds(if p * s >= 0 {
            p * s
        } else {
            -(p * s)
        }, FP_ONE as int);
        vstd::arithmetic::div_mod::lemma_div_is_ordered(
            if p * s >= 0 {
                p * s
            } else {
                -(p * s)
            },
            1099511627776,
            FP_ONE as int,
        );
        assert(1099511627776int / 1024 == 1073741824);
    }
    let prod = p * s;
    if prod >= 0 {
        prod / FP_ONE
    } else {
        -((-prod) / FP_ONE)
    }
}

/// Copies a vector of plain values.
fn clone_vec<T: Copy>(v: &Vec<T>) -> (c: Vec<T>)
    ensures
        c@ == v@,
{
    let mut c: Vec<T> = Vec::new();
    let mut i: usize = 0;
    while i < v.len()
        invariant
            i <= v@.len(),
            c@.len() == i,
            forall|j: int| 0 <= j < i ==> c@[j] == v@[j],
        decreases v@.len() - i,
    {
        c.push(v[i]);
        i = i + 1;
    }
    proof {
        assert(c@ =~= v@);
    }
    c
}

} // verus!
