//! Decoded scene geometry as the core receives it from the asset loader:
//! primitives with validated attribute arrays, meshes with a per-instance
//! transform, a deduplicating resource arena, and the scene submission list.

use vstd::prelude::*;

use crate::color::Nrm;
use crate::material::Material;
use crate::math::{Vec3i, COORD_LIMIT};
use crate::renderer_utils::{valid_lights, Light};

verus! {

/// Why a decoded primitive record was rejected.
#[derive(Clone, Copy, PartialEq, Eq, Structural, Debug)]
pub enum GeometryError {
    /// The index list's length is not a multiple of three.
    NotTriangles,
    /// The normal array's length differs from the position array's.
    MismatchedAttributes,
    /// An index points past the end of the position array.
    IndexOutOfRange,
    /// The index list is too long for the draw counters.
    TooManyIndices,
    /// A vertex coordinate exceeds the fixed-point range.
    CoordinateOutOfRange,
}

/// The structural validity every primitive carries: triangle indices in
/// range, one normal per position, bounded coordinates.
pub open spec fn valid_geometry(positions: Seq<Vec3i>, normals: Seq<Nrm>, indices: Seq<u32>) -> bool {
    &&& indices.len() % 3 == 0
    &&& indices.len() <= 0x7fffffff
    &&& normals.len() == positions.len()
    &&& forall|i: int| 0 <= i < indices.len() ==> (#[trigger] indices[i]) < positions.len()
    &&& forall|j: int|
        0 <= j < positions.len() ==> (#[trigger] positions[j]).in_range(COORD_LIMIT as int)
}

/// The check a primitive record goes through, with the first failure found
/// in the order the checks run.
pub open spec fn geometry_check(
    positions: Seq<Vec3i>,
    normals: Seq<Nrm>,
    indices: Seq<u32>,
) -> Option<GeometryError> {
    if indices.len() % 3 != 0 {
        Some(GeometryError::NotTriangles)
    } else if indices.len() > 0x7fffffff {
        Some(GeometryError::TooManyIndices)
    } else if normals.len() != positions.len() {
        Some(GeometryError::MismatchedAttributes)
    } else if !(forall|i: int| 0 <= i < indices.len() ==> (#[trigger] indices[i])
        < positions.len()) {
        Some(GeometryError::IndexOutOfRange)
    } else if !(forall|j: int|
        0 <= j < positions.len() ==> (#[trigger] positions[j]).in_range(COORD_LIMIT as int)) {
        Some(GeometryError::CoordinateOutOfRange)
    } else {
        None
    }
}

/// One decoded primitive: interleaved-attribute arrays (positions and
/// normals), a triangle index list, and the material it is shaded with.
pub struct Primitive {
    pub positions: Vec<Vec3i>,
    pub normals: Vec<Nrm>,
    pub indices: Vec<u32>,
    pub material: Material,
}

impl Primitive {
    /// The record is structurally valid.
    pub open spec fn wf(&self) -> bool {
        valid_geometry(self.positions@, self.normals@, self.indices@)
    }

    /// Accepts a decoded primitive record, rejecting malformed geometry
    /// before it can reach the per-frame passes.
    pub fn new(positions: Vec<Vec3i>, normals: Vec<Nrm>, indices: Vec<u32>, material: Material)
        -> (result: Result<Primitive, GeometryError>)
        ensures
            result is Ok <==> geometry_check(positions@, normals@, indices@) is None,
            result matches Ok(p) ==> {
                &&& p.wf()
                &&& p.positions@ == positions@
                &&& p.normals@ == normals@
                &&& p.indices@ == indices@
                &&& p.material == material
            },
            result matches Err(e) ==> geometry_check(positions@, normals@, indices@) == Some(e),
    {
        if indices.len() % 3 != 0 {
            return Err(GeometryError::NotTriangles);
        }
        if indices.len() > 0x7fffffff {
            return Err(GeometryError::TooManyIndices);
        }
        if normals.len() != positions.len() {
            return Err(GeometryError::MismatchedAttributes);
        }
        let mut i: usize = 0;
        while i < indices.len()
            invariant
                i <= indices@.len(),
                indices@.len() % 3 == 0,
                indices@.len() <= 0x7fffffff,
                normals@.len() == positions@.len(),
                forall|k: int| 0 <= k < i ==> (#[trigger] indices@[k]) < positions@.len(),
            decreases indices@.len() - i,
        {
            if indices[i] as usize >= positions.len() {
                return Err(GeometryError::IndexOutOfRange);
            }
            i = i + 1;
        }
        let mut j: usize = 0;
        while j < positions.len()
            invariant
                j <= positions@.len(),
                indices@.len() % 3 == 0,
                indices@.len() <= 0x7fffffff,
                normals@.len() == positions@.len(),
                forall|k: int| 0 <= k < indices@.len() ==> (#[trigger] indices@[k]) < positions@.len(),
                forall|k: int|
                    0 <= k < j ==> (#[trigger] positions@[k]).in_range(COORD_LIMIT as int),
            decreases positions@.len() - j,
        {
            let p = positions[j];
            if p.x < -COORD_LIMIT || p.x > COORD_LIMIT || p.y < -COORD_LIMIT || p.y > COORD_LIMIT
                || p.z < -COORD_LIMIT || p.z > COORD_LIMIT {
                return Err(GeometryError::CoordinateOutOfRange);
            }
            j = j + 1;
        }
        Ok(Primitive { positions, normals, indices, material })
    }
}

/// A mesh: the primitives decoded from one asset, with the per-instance
/// transform they are submitted under.
pub struct Mesh {
    pub primitives: Vec<Primitive>,
    pub position: Vec3i,
    pub scale: Vec3i,
}

impl Mesh {
    /// All primitives valid and the transform bounded.
    pub open spec fn wf(&self) -> bool {
        &&& forall|i: int| 0 <= i < self.spec_primitives().len() ==> (#[trigger] self.spec_primitives()[i]).wf()
        &&& self.position.in_range(COORD_LIMIT as int)
        &&& self.scale.in_range(COORD_LIMIT as int)
    }

    /// The primitives of the mesh.
    pub open spec fn spec_primitives(&self) -> Seq<Primitive> {
        self.primitives@
    }

    /// Bundles already-validated primitives with an instance transform.
    pub fn new(primitives: Vec<Primitive>, position: Vec3i, scale: Vec3i) -> (result: Result<
        Mesh,
        GeometryError,
    >)
        requires
            forall|i: int| 0 <= i < primitives@.len() ==> (#[trigger] primitives@[i]).wf(),
        ensures
            result is Ok <==> position.in_range(COORD_LIMIT as int) && scale.in_range(
                COORD_LIMIT as int,
            ),
            result matches Ok(m) ==> {
                &&& m.wf()
                &&& m.spec_primitives() == primitives@
                &&& m.position == position
                &&& m.scale == scale
            },
            result matches Err(e) ==> e == GeometryError::CoordinateOutOfRange,
    {
        if position.x < -COORD_LIMIT || position.x > COORD_LIMIT || position.y < -COORD_LIMIT
            || position.y > COORD_LIMIT || position.z < -COORD_LIMIT || position.z > COORD_LIMIT
            || scale.x < -COORD_LIMIT || scale.x > COORD_LIMIT || scale.y < -COORD_LIMIT || scale.y
            > COORD_LIMIT || scale.z < -COORD_LIMIT || scale.z > COORD_LIMIT {
            return Err(GeometryError::CoordinateOutOfRange);
        }
        Ok(Mesh { primitives, position, scale })
    }

    pub fn primitives(&self) -> (p: &Vec<Primitive>)
        ensures
            p@ == self.spec_primitives(),
    {
        &self.primitives
    }
}

/// The deduplicating resource arena: materials keyed by their content name,
/// handed out as indices into the arena.
pub struct Resources {
    materials: Vec<Material>,
}

impl Resources {
    /// The materials currently interned, in insertion order.
    pub closed spec fn spec_materials(&self) -> Seq<Material> {
        self.materials@
    }

    /// No two interned materials share a name.
    pub open spec fn wf(&self) -> bool {
        forall|i: int, j: int|
            0 <= i < j < self.spec_materials().len() ==> (#[trigger] self.spec_materials()[i]).spec_name()
                != (#[trigger] self.spec_materials()[j]).spec_name()
    }

    pub fn new() -> (r: Resources)
        ensures
            r.wf(),
            r.spec_materials() == Seq::<Material>::empty(),
    {
        let r = Resources { materials: Vec::new() };
        proof {
            assert(r.spec_materials() =~= Seq::<Material>::empty());
        }
        r
    }

    /// Interns a material by its content name: an already-present material
    /// with the same name is reused, otherwise the new one is appended.
    /// Returns the handle (arena index) of the interned material.
    pub fn fetch_material(&mut self, material: Material) -> (handle: usize)
        requires
            old(self).wf(),
        ensures
            final(self).wf(),
            handle < final(self).spec_materials().len(),
            final(self).spec_materials()[handle as int].spec_name() == material.spec_name(),
            (exists|i: int|
                0 <= i < old(self).spec_materials().len() && (#[trigger] old(self).spec_materials()[i]).spec_name()
                    == material.spec_name()) ==> *final(self) == *old(self),
            !(exists|i: int|
                0 <= i < old(self).spec_materials().len() && (#[trigger] old(self).spec_materials()[i]).spec_name()
                    == material.spec_name()) ==> final(self).spec_materials() == old(
                self,
            ).spec_materials().push(material) && handle == old(self).spec_materials().len(),
    {
        let mut i: usize = 0;
        while i < self.materials.len()
            invariant
                *self == *old(self),
                old(self).wf(),
                i <= self.spec_materials().len(),
                forall|k: int|
                    0 <= k < i ==> (#[trigger] self.spec_materials()[k]).spec_name()
                        != material.spec_name(),
            decreases self.spec_materials().len() - i,
        {
            if string_eq(self.materials[i].name(), material.name()) {
                return i;
            }
            i = i + 1;
        }
        let n = self.materials.len();
        self.materials.push(material);
        proof {
            assert(final(self).spec_materials() =~= old(self).spec_materials().push(material));
        }
        n
    }
}

/// String equality by contents.
fn string_eq(a: &String, b: &String) -> (r: bool)
    ensures
        r <==> a@ == b@,
{
    *a == *b
}

/// The scene a frame renders: submitted meshes and the light list.
pub struct Scene {
    pub meshes: Vec<Mesh>,
    pub lights: Vec<Light>,
}

impl Scene {
    /// Every mesh and light of the scene is valid.
    pub open spec fn wf(&self) -> bool {
        &&& forall|i: int| 0 <= i < self.meshes@.len() ==> (#[trigger] self.meshes@[i]).wf()
        &&& valid_lights(self.lights@)
    }

    pub fn new() -> (s: Scene)
        ensures
            s.wf(),
            s.meshes@.len() == 0,
            s.lights@.len() == 0,
    {
        Scene { meshes: Vec::new(), lights: Vec::new() }
    }
}

} // verus!
