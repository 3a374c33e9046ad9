//! Lights and the scratch resources of the hybrid voxelization scheme: the
//! shared triangle counter, the compacted index buffer and the indirect-draw
//! command record, each reset, filled and consumed once per primitive.

use vstd::prelude::*;

use crate::color::Rgb8;
use crate::math::{Vec3i, COORD_LIMIT};

verus! {

/// Fixed-point scale of light intensities: `INTENSITY_ONE` is intensity 1.0.
pub const INTENSITY_ONE: u32 = 256;

/// Largest intensity a light may carry.
pub const INTENSITY_LIMIT: u32 = 65536;

/// Most lights a frame may carry; the injection pass folds all of them into
/// every voxel.
pub const MAX_LIGHTS: usize = 256;

/// A point light: position, colour, and intensity in units of
/// [`INTENSITY_ONE`].
#[derive(Clone, Copy, PartialEq, Eq, Structural, Debug)]
pub struct Light {
    pub position: Vec3i,
    pub color: Rgb8,
    pub intensity: u32,
}

/// A light the injector can consume: bounded position and intensity.
pub open spec fn valid_light(l: Light) -> bool {
    &&& l.position.in_range(COORD_LIMIT as int)
    &&& l.intensity <= INTENSITY_LIMIT
}

/// Every light of a list is valid.
pub open spec fn valid_lights(lights: Seq<Light>) -> bool {
    forall|i: int| 0 <= i < lights.len() ==> valid_light(#[trigger] lights[i])
}

/// One channel of the radiance a light emits: colour times intensity.
pub open spec fn emitted_chan(c: u8, intensity: u32) -> int {
    (c * intensity) / (INTENSITY_ONE as int)
}

/// Flattens the light list to structure-of-arrays form as the injection
/// pass consumes it: positions coordinate by coordinate, and colours already
/// multiplied by intensity, channel by channel.
pub fn lights_to_soa(lights: &Vec<Light>) -> (soa: (Vec<i64>, Vec<u32>))
    requires
        valid_lights(lights@),
    ensures
        soa.0@.len() == 3 * lights@.len(),
        soa.1@.len() == 3 * lights@.len(),
        forall|i: int|
            0 <= i < lights@.len() ==> {
                &&& soa.0@[3 * i] == (#[trigger] lights@[i]).position.x
                &&& soa.0@[3 * i + 1] == lights@[i].position.y
                &&& soa.0@[3 * i + 2] == lights@[i].position.z
                &&& soa.1@[3 * i] == emitted_chan(lights@[i].color.r, lights@[i].intensity)
                &&& soa.1@[3 * i + 1] == emitted_chan(lights@[i].color.g, lights@[i].intensity)
                &&& soa.1@[3 * i + 2] == emitted_chan(lights@[i].color.b, lights@[i].intensity)
            },
{
    let mut positions: Vec<i64> = Vec::new();
    let mut colors: Vec<u32> = Vec::new();
    let mut i: usize = 0;
    while i < lights.len()
        invariant
            valid_lights(lights@),
            i <= lights@.len(),
            positions@.len() == 3 * i,
            colors@.len() == 3 * i,
            forall|j: int|
                0 <= j < i ==> {
                    &&& positions@[3 * j] == (#[trigger] lights@[j]).position.x
                    &&& positions@[3 * j + 1] == lights@[j].position.y
                    &&& positions@[3 * j + 2] == lights@[j].position.z
                    &&& colors@[3 * j] == emitted_chan(lights@[j].color.r, lights@[j].intensity)
                    &&& colors@[3 * j + 1] == emitted_chan(lights@[j].color.g, lights@[j].intensity)
                    &&& colors@[3 * j + 2] == emitted_chan(lights@[j].color.b, lights@[j].intensity)
                },
        decreases lights@.len() - i,
    {
        let l = lights[i];
        positions.push(l.position.x);
        positions.push(l.position.y);
        positions.push(l.position.z);
        colors.push(emitted(l.color.r, l.intensity));
        colors.push(emitted(l.color.g, l.intensity));
        colors.push(emitted(l.color.b, l.intensity));
        i = i + 1;
    }
    (positions, colors)
}

/// One emitted channel, computed in 32-bit arithmetic.
pub fn emitted(c: u8, intensity: u32) -> (e: u32)
    requires
        intensity <= INTENSITY_LIMIT,
    ensures
        e == emitted_chan(c, intensity),
        e < 65536,
{
    proof {
        crate::math::lemma_mul_bound(c as int, intensity as int, 255, 65536);
        crate::math::lemma_div_pos_bounds((c as int) * (intensity as int), INTENSITY_ONE as int);
        vstd::arithmetic::div_mod::lemma_div_is_ordered(
            (c as int) * (intensity as int),
            16711680int,
            256,
        );
        assert(16711680int / 256 == 65280);
    }
    (c as u32 * intensity) / INTENSITY_ONE
}

/// The default light rig the renderer starts with.
pub fn load_lights() -> (lights: Vec<Light>)
    ensures
        lights@.len() == 3,
        valid_lights(lights@),
        lights@[0] == (Light {
            position: Vec3i { x: -2560i64, y: 9216i64, z: 0i64 },
            color: Rgb8 { r: 208, g: 0, b: 85 },
            intensity: 256,
        }),
        lights@[1] == (Light {
            position: Vec3i { x: 2560i64, y: 9216i64, z: 0i64 },
            color: Rgb8 { r: 0, g: 208, b: 85 },
            intensity: 256,
        }),
        lights@[2] == (Light {
            position: Vec3i { x: 0i64, y: 9216i64, z: -2560i64 },
            color: Rgb8 { r: 0, g: 170, b: 255 },
            intensity: 256,
        }),
{
    let mut lights: Vec<Light> = Vec::new();
    lights.push(
        Light {
            position: Vec3i::new(-2560, 9216, 0),
            color: Rgb8::new(208, 0, 85),
            intensity: 256,
        },
    );
    lights.push(
        Light { position: Vec3i::new(2560, 9216, 0), color: Rgb8::new(0, 208, 85), intensity: 256 },
    );
    lights.push(
        Light {
            position: Vec3i::new(0, 9216, -2560),
            color: Rgb8::new(0, 170, 255),
            intensity: 256,
        },
    );
    lights
}

/// The shared triangle counter of the classify pass: reset to zero before
/// each primitive, then incremented once per surviving triangle.
pub struct AtomicCounter {
    value: u32,
}

impl AtomicCounter {
    /// The count currently stored.
    pub closed spec fn spec_value(&self) -> u32 {
        self.value
    }

    pub fn new() -> (c: AtomicCounter)
        ensures
            c.spec_value() == 0,
    {
        AtomicCounter { value: 0 }
    }

    /// Resets the counter before classifying a primitive.
    pub fn set_value(&mut self, value: u32)
        ensures
            final(self).spec_value() == value,
    {
        self.value = value;
    }

    pub fn value(&self) -> (v: u32)
        ensures
            v == self.spec_value(),
    {
        self.value
    }

    /// Claims the next compaction slot: returns the old count and advances.
    pub fn claim(&mut self) -> (slot: u32)
        requires
            old(self).spec_value() < 0xffff_ffff,
        ensures
            slot == old(self).spec_value(),
            final(self).spec_value() == old(self).spec_value() + 1,
    {
        let slot = self.value;
        self.value = self.value + 1;
        slot
    }
}

/// The compacted index buffer the classify pass appends surviving triangles
/// to, consumed by the following indirect draw of the same primitive.
pub struct IndicesBuffer {
    data: Vec<u32>,
}

impl IndicesBuffer {
    /// The compacted vertex indices currently stored.
    pub closed spec fn spec_data(&self) -> Seq<u32> {
        self.data@
    }

    pub fn new() -> (b: IndicesBuffer)
        ensures
            b.spec_data() == Seq::<u32>::empty(),
    {
        let b = IndicesBuffer { data: Vec::new() };
        proof {
            assert(b.spec_data() =~= Seq::<u32>::empty());
        }
        b
    }

    /// Drops the previous primitive's compacted list.
    pub fn reset(&mut self)
        ensures
            final(self).spec_data() == Seq::<u32>::empty(),
    {
        self.data.clear();
        proof {
            assert(final(self).spec_data() =~= Seq::<u32>::empty());
        }
    }

    /// Appends the three vertex indices of a surviving triangle.
    pub fn append_triangle(&mut self, i0: u32, i1: u32, i2: u32)
        ensures
            final(self).spec_data() == old(self).spec_data() + seq![i0, i1, i2],
    {
        self.data.push(i0);
        self.data.push(i1);
        self.data.push(i2);
        proof {
            assert(final(self).spec_data() =~= old(self).spec_data() + seq![i0, i1, i2]);
        }
    }

    /// Number of compacted indices.
    pub fn len(&self) -> (n: usize)
        ensures
            n == self.spec_data().len(),
    {
        self.data.len()
    }

    /// One compacted index.
    pub fn index_at(&self, i: usize) -> (v: u32)
        requires
            i < self.spec_data().len(),
        ensures
            v == self.spec_data()[i as int],
    {
        self.data[i]
    }
}

/// The indirect-draw command record describing exactly the compacted subset
/// of one primitive: triangle count, base index, base vertex.
#[derive(Clone, Copy, PartialEq, Eq, Structural, Debug)]
pub struct IndirectCommand {
    pub count: u32,
    pub prim_count: u32,
    pub first_index: u32,
    pub base_vertex: u32,
    pub base_instance: u32,
}

impl IndirectCommand {
    pub fn new() -> (c: IndirectCommand)
        ensures
            c == (IndirectCommand {
                count: 1,
                prim_count: 1,
                first_index: 0,
                base_vertex: 0,
                base_instance: 0,
            }),
    {
        IndirectCommand { count: 1, prim_count: 1, first_index: 0, base_vertex: 0, base_instance: 0 }
    }

    /// Records the draw parameters for the compacted subset just built.
    pub fn record(&mut self, count: u32)
        ensures
            *final(self) == (IndirectCommand {
                count,
                prim_count: 1,
                first_index: 0,
                base_vertex: 0,
                base_instance: 0,
            }),
    {
        self.count = count;
        self.prim_count = 1;
        self.first_index = 0;
        self.base_vertex = 0;
        self.base_instance = 0;
    }
}

} // verus!
