use vstd::prelude::*;
use crate::packed::{PackedVec3, vec3_words};
use crate::material::{Material, decode_material, material_code, material_albedo, material_param};

verus! {

/// Number of words one sphere record occupies in the scene buffer.
pub const SPHERE_WORDS: usize = 12;

/// A sphere as the compute device reads it. A negative radius turns the
/// surface normal inward, which models the inner wall of a hollow shell.
/// `mat_type` tags the material, `fuzz_or_ir` is its parameter word and
/// `albedo` its colour word.
#[derive(Clone, Copy, Debug, PartialEq, Eq, Structural)]
pub struct Sphere {
    pub radius: u32,
    pub mat_type: u32,
    pub fuzz_or_ir: u32,
    pub albedo: PackedVec3,
    pub center: PackedVec3,
}

/// The twelve words of a sphere record: radius, tag, parameter, padding,
/// then the padded colour and the padded centre.
pub open spec fn sphere_words(s: Sphere) -> Seq<u32> {
    seq![s.radius, s.mat_type, s.fuzz_or_ir, 0u32] + vec3_words(s.albedo) + vec3_words(s.center)
}

/// The scene buffer: the records of the spheres, one after another.
pub open spec fn scene_words(spheres: Seq<Sphere>) -> Seq<u32>
    decreases spheres.len(),
{
    if spheres.len() == 0 {
        Seq::empty()
    } else {
        scene_words(spheres.drop_last()) + sphere_words(spheres.last())
    }
}

/// The material a record decodes to.
pub open spec fn sphere_material(s: Sphere) -> Option<Material> {
    decode_material(s.mat_type, s.albedo, s.fuzz_or_ir)
}

impl Sphere {
    /// The record of a sphere with the given centre, radius and material.
    pub fn new(center: PackedVec3, radius: u32, material: Material) -> (r: Sphere)
        ensures
            r.center == center,
            r.radius == radius,
            r.mat_type == material_code(material),
            r.albedo == material_albedo(material),
            r.fuzz_or_ir == material_param(material),
            sphere_material(r) == Some(material),
    {
        Sphere {
            radius,
            mat_type: material.code(),
            fuzz_or_ir: material.param(),
            albedo: material.albedo(),
            center,
        }
    }

    /// The material of this record; `None` if its tag is unknown.
    pub fn material(&self) -> (r: Option<Material>)
        ensures
            r == sphere_material(*self),
    {
        Material::decode(self.mat_type, self.albedo, self.fuzz_or_ir)
    }

    /// Appends this record to `out`.
    pub fn write_words(&self, out: &mut Vec<u32>)
        ensures
            final(out)@ == old(out)@ + sphere_words(*self),
    {
        out.push(self.radius);
        out.push(self.mat_type);
        out.push(self.fuzz_or_ir);
        out.push(0);
        self.albedo.write_words(out);
        self.center.write_words(out);
        assert(out@ =~= old(out)@ + sphere_words(*self));
    }

    /// This record as words.
    pub fn to_words(&self) -> (r: Vec<u32>)
        ensures
            r@ == sphere_words(*self),
            r@.len() == SPHERE_WORDS,
    {
        let mut out: Vec<u32> = Vec::new();
        self.write_words(&mut out);
        assert(out@ =~= sphere_words(*self));
        out
    }
}

/// A flat, unordered collection of spheres, searched by linear scan.
pub struct Scene {
    spheres: Vec<Sphere>,
}

impl View for Scene {
    type V = Seq<Sphere>;

    closed spec fn view(&self) -> Seq<Sphere> {
        self.spheres@
    }
}

impl Scene {
    /// A scene without spheres.
    pub fn new() -> (r: Scene)
        ensures
            r@ == Seq::<Sphere>::empty(),
    {
        Scene { spheres: Vec::new() }
    }

    /// Appends a sphere.
    pub fn add(&mut self, sphere: Sphere)
        ensures
            final(self)@ == old(self)@.push(sphere),
    {
        self.spheres.push(sphere);
    }

    /// Removes every sphere.
    pub fn clear(&mut self)
        ensures
            final(self)@ == Seq::<Sphere>::empty(),
    {
        self.spheres.clear();
    }

    /// Number of spheres.
    pub fn len(&self) -> (r: usize)
        ensures
            r == self@.len(),
    {
        self.spheres.len()
    }

    /// The spheres, in the order they were added.
    pub fn spheres(&self) -> (r: &Vec<Sphere>)
        ensures
            r@ == self@,
    {
        &self.spheres
    }

    /// The scene buffer for the compute device.
    pub fn to_words(&self) -> (r: Vec<u32>)
        ensures
            r@ == scene_words(self@),
    {
        let mut out: Vec<u32> = Vec::new();
        let n = self.spheres.len();
        let mut i: usize = 0;
        while i < n
            invariant
                n == self.spheres@.len(),
                i <= n,
                out@ == scene_words(self.spheres@.take(i as int)),
            decreases n - i,
        {
            let s = self.spheres[i];
            s.write_words(&mut out);
            assert(self.spheres@.take(i as int + 1).drop_last() =~= self.spheres@.take(i as int));
            i = i + 1;
        }
        assert(self.spheres@.take(n as int) =~= self.spheres@);
        out
    }
}

/// The scene buffer holds one twelve-word record per sphere, and record `i`
/// is the layout of sphere `i`.
pub proof fn lemma_scene_words_layout(spheres: Seq<Sphere>)
    ensures
        scene_words(spheres).len() == SPHERE_WORDS * spheres.len(),
        forall|i: int| 0 <= i < spheres.len() ==>
            #[trigger] scene_words(spheres).subrange(SPHERE_WORDS * i, SPHERE_WORDS * i + SPHERE_WORDS)
                == sphere_words(spheres[i]),
    decreases spheres.len(),
{
    if spheres.len() > 0 {
        let init = spheres.drop_last();
        lemma_scene_words_layout(init);
        let w = scene_words(spheres);
        let n = spheres.len() - 1;
        assert forall|i: int| 0 <= i < spheres.len() implies
            #[trigger] w.subrange(SPHERE_WORDS * i, SPHERE_WORDS * i + SPHERE_WORDS) == sphere_words(spheres[i]) by {
            if i < n {
                assert(scene_words(init).subrange(SPHERE_WORDS * i, SPHERE_WORDS * i + SPHERE_WORDS) == sphere_words(init[i]));
                assert(SPHERE_WORDS * i + SPHERE_WORDS <= SPHERE_WORDS * n) by (nonlinear_arith)
                    requires i < n;
                assert(w.subrange(SPHERE_WORDS * i, SPHERE_WORDS * i + SPHERE_WORDS) =~= scene_words(init).subrange(SPHERE_WORDS * i, SPHERE_WORDS * i + SPHERE_WORDS));
            } else {
                assert(w.subrange(SPHERE_WORDS * i, SPHERE_WORDS * i + SPHERE_WORDS) =~= sphere_words(spheres[i]));
            }
        }
    }
}

} // verus!
