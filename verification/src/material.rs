//! Materials and textures as the core sees them: a texture is a content key
//! plus the base colour the voxelizer samples from it; a material bundles the
//! four texture slots of the shading model and an emissive colour.

use vstd::prelude::*;

use crate::color::Rgb8;

verus! {

/// A decoded texture: its content key (used for deduplication) and the base
/// colour the voxelization pass reads from it.  Image decoding itself is the
/// asset loader's business, outside this core.
pub struct Texture {
    pub name: String,
    pub color: Rgb8,
}

impl Texture {
    pub fn new(name: String, color: Rgb8) -> (t: Texture)
        ensures
            t.name@ == name@,
            t.color == color,
    {
        Texture { name, color }
    }

    /// The content key of the texture.
    pub open spec fn spec_name(&self) -> Seq<char> {
        self.name@
    }

    /// The base colour of the texture.
    pub open spec fn spec_color(&self) -> Rgb8 {
        self.color
    }

    pub fn name(&self) -> (n: &String)
        ensures
            n@ == self.spec_name(),
    {
        &self.name
    }

    pub fn color(&self) -> (c: Rgb8)
        ensures
            c == self.spec_color(),
    {
        self.color
    }

    pub fn clone(&self) -> (t: Texture)
        ensures
            t.spec_name() == self.spec_name(),
            t.spec_color() == self.spec_color(),
    {
        Texture { name: self.name.clone(), color: self.color }
    }
}

/// The 1x1 fallback albedo texture used when a material has none.
pub fn default_albedo() -> (t: Texture)
    ensures
        t.spec_color() == (Rgb8 { r: 0, g: 0, b: 0 }),
{
    Texture::new("default_albedo".to_owned(), Rgb8::new(0, 0, 0))
}

/// The fallback metallic/roughness texture used when a material has none.
pub fn default_metaghness() -> (t: Texture)
    ensures
        t.spec_color() == (Rgb8 { r: 0, g: 250, b: 0 }),
{
    Texture::new("default_metaghness".to_owned(), Rgb8::new(0, 250, 0))
}

/// The 1x1 fallback normal texture (a straight-up tangent-space normal).
pub fn default_normal() -> (t: Texture)
    ensures
        t.spec_color() == (Rgb8 { r: 0, g: 0, b: 255 }),
{
    Texture::new("default_normal".to_owned(), Rgb8::new(0, 0, 255))
}

/// The 1x1 fallback occlusion texture (fully unoccluded).
pub fn default_occlusion() -> (t: Texture)
    ensures
        t.spec_color() == (Rgb8 { r: 255, g: 255, b: 255 }),
{
    Texture::new("default_occlusion".to_owned(), Rgb8::new(255, 255, 255))
}

/// A material: a name (its deduplication key), the four texture slots of the
/// shading model, and an emissive colour deposited into the emission grid.
pub struct Material {
    pub name: String,
    pub albedo: Texture,
    pub metaghness: Texture,
    pub normal: Texture,
    pub occlusion: Texture,
    pub emissive: Rgb8,
}

impl Material {
    pub fn new(
        name: String,
        albedo: Texture,
        metaghness: Texture,
        normal: Texture,
        occlusion: Texture,
    ) -> (m: Material)
        ensures
            m.spec_name() == name@,
            m.albedo == albedo,
            m.metaghness == metaghness,
            m.normal == normal,
            m.occlusion == occlusion,
            m.spec_emissive() == (Rgb8 { r: 0, g: 0, b: 0 }),
    {
        Material { name, albedo, metaghness, normal, occlusion, emissive: Rgb8::zero() }
    }

    /// The deduplication key of the material.
    pub open spec fn spec_name(&self) -> Seq<char> {
        self.name@
    }

    /// The emissive colour of the material.
    pub open spec fn spec_emissive(&self) -> Rgb8 {
        self.emissive
    }

    pub fn name(&self) -> (n: &String)
        ensures
            n@ == self.spec_name(),
    {
        &self.name
    }

    pub fn albedo(&self) -> (t: &Texture)
        ensures
            *t == self.albedo,
    {
        &self.albedo
    }

    pub fn metaghness(&self) -> (t: &Texture)
        ensures
            *t == self.metaghness,
    {
        &self.metaghness
    }

    pub fn normal(&self) -> (t: &Texture)
        ensures
            *t == self.normal,
    {
        &self.normal
    }

    pub fn occlusion(&self) -> (t: &Texture)
        ensures
            *t == self.occlusion,
    {
        &self.occlusion
    }

    pub fn emissive(&self) -> (e: Rgb8)
        ensures
            e == self.spec_emissive(),
    {
        self.emissive
    }

    /// Replaces the emissive colour of the material.
    pub fn set_emissive(&mut self, e: Rgb8)
        ensures
            final(self).spec_emissive() == e,
            final(self).spec_name() == old(self).spec_name(),
            final(self).albedo == old(self).albedo,
            final(self).metaghness == old(self).metaghness,
            final(self).normal == old(self).normal,
            final(self).occlusion == old(self).occlusion,
    {
        self.emissive = e;
    }

    pub fn clone(&self) -> (m: Material)
        ensures
            m.spec_name() == self.spec_name(),
            m.albedo.spec_name() == self.albedo.spec_name(),
            m.albedo.spec_color() == self.albedo.spec_color(),
            m.metaghness.spec_name() == self.metaghness.spec_name(),
            m.metaghness.spec_color() == self.metaghness.spec_color(),
            m.normal.spec_name() == self.normal.spec_name(),
            m.normal.spec_color() == self.normal.spec_color(),
            m.occlusion.spec_name() == self.occlusion.spec_name(),
            m.occlusion.spec_color() == self.occlusion.spec_color(),
            m.spec_emissive() == self.spec_emissive(),
    {
        Material {
            name: self.name.clone(),
            albedo: self.albedo.clone(),
            metaghness: self.metaghness.clone(),
            normal: self.normal.clone(),
            occlusion: self.occlusion.clone(),
            emissive: self.emissive,
        }
    }
}

/// Step-by-step construction of a material; unfilled texture slots fall back
/// to the defaults.
pub struct MaterialBuilder {
    pub name: String,
    pub albedo_tex: Option<Texture>,
    pub normal_tex: Option<Texture>,
    pub metaghness_tex: Option<Texture>,
    pub occlusion_tex: Option<Texture>,
}

impl MaterialBuilder {
    pub fn new(name: String) -> (b: MaterialBuilder)
        ensures
            b.name@ == name@,
            b.albedo_tex is None,
            b.normal_tex is None,
            b.metaghness_tex is None,
            b.occlusion_tex is None,
    {
        MaterialBuilder {
            name,
            albedo_tex: None,
            normal_tex: None,
            metaghness_tex: None,
            occlusion_tex: None,
        }
    }

    pub fn albedo_tex(self, image: Texture) -> (b: MaterialBuilder)
        ensures
            b.albedo_tex == Some(image),
            b.name@ == self.name@,
            b.normal_tex == self.normal_tex,
            b.metaghness_tex == self.metaghness_tex,
            b.occlusion_tex == self.occlusion_tex,
    {
        MaterialBuilder { albedo_tex: Some(image), ..self }
    }

    pub fn metaghness_tex(self, image: Texture) -> (b: MaterialBuilder)
        ensures
            b.metaghness_tex == Some(image),
            b.name@ == self.name@,
            b.albedo_tex == self.albedo_tex,
            b.normal_tex == self.normal_tex,
            b.occlusion_tex == self.occlusion_tex,
    {
        MaterialBuilder { metaghness_tex: Some(image), ..self }
    }

    pub fn normal_tex(self, image: Texture) -> (b: MaterialBuilder)
        ensures
            b.normal_tex == Some(image),
            b.name@ == self.name@,
            b.albedo_tex == self.albedo_tex,
            b.metaghness_tex == self.metaghness_tex,
            b.occlusion_tex == self.occlusion_tex,
    {
        MaterialBuilder { normal_tex: Some(image), ..self }
    }

    pub fn occlusion_tex(self, image: Texture) -> (b: MaterialBuilder)
        ensures
            b.occlusion_tex == Some(image),
            b.name@ == self.name@,
            b.albedo_tex == self.albedo_tex,
            b.metaghness_tex == self.metaghness_tex,
            b.normal_tex == self.normal_tex,
    {
        MaterialBuilder { occlusion_tex: Some(image), ..self }
    }

    /// Finishes the material, filling empty slots with the defaults.
    pub fn build(self) -> (m: Material)
        ensures
            m.spec_name() == self.name@,
            self.albedo_tex matches Some(t) ==> m.albedo == t,
            self.albedo_tex is None ==> m.albedo.spec_color() == (Rgb8 { r: 0, g: 0, b: 0 }),
            self.metaghness_tex matches Some(t) ==> m.metaghness == t,
            self.normal_tex matches Some(t) ==> m.normal == t,
            self.occlusion_tex matches Some(t) ==> m.occlusion == t,
            m.spec_emissive() == (Rgb8 { r: 0, g: 0, b: 0 }),
    {
        let albedo = match self.albedo_tex {
            Some(t) => t,
            None => default_albedo(),
        };
        let metaghness = match self.metaghness_tex {
            Some(t) => t,
            None => default_metaghness(),
        };
        let normal = match self.normal_tex {
            Some(t) => t,
            None => default_normal(),
        };
        let occlusion = match self.occlusion_tex {
            Some(t) => t,
            None => default_occlusion(),
        };
        Material::new(self.name, albedo, metaghness, normal, occlusion)
    }
}

} // verus!
