use vstd::prelude::*;
use crate::packed::PackedVec3;

verus! {

/// Tag of a diffuse surface in a packed sphere record.
pub const LAMBERTIAN_CODE: u32 = 0;

/// Tag of a reflective surface in a packed sphere record.
pub const METAL_CODE: u32 = 1;

/// Tag of a refractive surface in a packed sphere record.
pub const DIELECTRIC_CODE: u32 = 2;

/// A diffuse surface with the given reflectance per channel.
#[derive(Clone, Copy, Debug, PartialEq, Eq, Structural)]
pub struct Lambertian {
    pub albedo: PackedVec3,
}

/// A reflective surface; `fuzz` is the roughness of the reflection.
#[derive(Clone, Copy, Debug, PartialEq, Eq, Structural)]
pub struct Metal {
    pub albedo: PackedVec3,
    pub fuzz: u32,
}

/// A clear refractive surface with index of refraction `ir`.
#[derive(Clone, Copy, Debug, PartialEq, Eq, Structural)]
pub struct Dielectric {
    pub ir: u32,
}

/// The closed set of surface models a sphere can carry.
#[derive(Clone, Copy, Debug, PartialEq, Eq, Structural)]
pub enum Material {
    Lambertian(Lambertian),
    Metal(Metal),
    Dielectric(Dielectric),
}

/// The tag that identifies each model in a packed sphere record.
pub open spec fn material_code(m: Material) -> u32 {
    match m {
        Material::Lambertian(_) => LAMBERTIAN_CODE,
        Material::Metal(_) => METAL_CODE,
        Material::Dielectric(_) => DIELECTRIC_CODE,
    }
}

/// The colour word of a packed record: the albedo, or zero for a dielectric,
/// which does not tint the light it passes.
pub open spec fn material_albedo(m: Material) -> PackedVec3 {
    match m {
        Material::Lambertian(l) => l.albedo,
        Material::Metal(mt) => mt.albedo,
        Material::Dielectric(_) => PackedVec3 { x: 0, y: 0, z: 0 },
    }
}

/// The shared parameter word of a packed record: the fuzz of a metal, the
/// index of refraction of a dielectric, zero for a diffuse surface.
pub open spec fn material_param(m: Material) -> u32 {
    match m {
        Material::Lambertian(_) => 0,
        Material::Metal(mt) => mt.fuzz,
        Material::Dielectric(d) => d.ir,
    }
}

/// The model that a tag, colour and parameter word decode to, if the tag is
/// known.
pub open spec fn decode_material(code: u32, albedo: PackedVec3, param: u32) -> Option<Material> {
    if code == LAMBERTIAN_CODE {
        Some(Material::Lambertian(Lambertian { albedo }))
    } else if code == METAL_CODE {
        Some(Material::Metal(Metal { albedo, fuzz: param }))
    } else if code == DIELECTRIC_CODE {
        Some(Material::Dielectric(Dielectric { ir: param }))
    } else {
        None
    }
}

impl Material {
    /// The tag of this model.
    pub fn code(&self) -> (r: u32)
        ensures
            r == material_code(*self),
    {
        match self {
            Material::Lambertian(_) => LAMBERTIAN_CODE,
            Material::Metal(_) => METAL_CODE,
            Material::Dielectric(_) => DIELECTRIC_CODE,
        }
    }

    /// The colour word stored for this model.
    pub fn albedo(&self) -> (r: PackedVec3)
        ensures
            r == material_albedo(*self),
    {
        match self {
            Material::Lambertian(l) => l.albedo,
            Material::Metal(m) => m.albedo,
            Material::Dielectric(_) => PackedVec3::zero(),
        }
    }

    /// The parameter word stored for this model.
    pub fn param(&self) -> (r: u32)
        ensures
            r == material_param(*self),
    {
        match self {
            Material::Lambertian(_) => 0,
            Material::Metal(m) => m.fuzz,
            Material::Dielectric(d) => d.ir,
        }
    }

    /// Rebuilds a model from its tag, colour word and parameter word; `None`
    /// for an unknown tag.
    pub fn decode(code: u32, albedo: PackedVec3, param: u32) -> (r: Option<Material>)
        ensures
            r == decode_material(code, albedo, param),
            r is None <==> code > DIELECTRIC_CODE,
    {
        if code == LAMBERTIAN_CODE {
            Some(Material::Lambertian(Lambertian { albedo }))
        } else if code == METAL_CODE {
            Some(Material::Metal(Metal { albedo, fuzz: param }))
        } else if code == DIELECTRIC_CODE {
            Some(Material::Dielectric(Dielectric { ir: param }))
        } else {
            None
        }
    }
}

/// Encoding a model and decoding the result gives the model back.
pub proof fn lemma_material_round_trip(m: Material)
    ensures
        decode_material(material_code(m), material_albedo(m), material_param(m)) == Some(m),
{
}

} // verus!
