use vstd::prelude::*;
use crate::packed::{PackedVec3, vec3_words};
use crate::scene::Scene;

verus! {

/// Number of words a camera record occupies.
pub const CAMERA_WORDS: usize = 33;

/// Number of words the configuration record occupies, camera included.
pub const CONFIG_WORDS: usize = 41;

/// The camera as the compute device reads it: the eye point, the lower left
/// corner of the focus plane and the two vectors spanning it, the up vector,
/// the orthonormal basis `u`, `v`, `w`, and the radius of the lens.
#[derive(Clone, Copy, Debug, PartialEq, Eq, Structural)]
pub struct Camera {
    pub origin: PackedVec3,
    pub lower_left_corner: PackedVec3,
    pub horizontal: PackedVec3,
    pub vertical: PackedVec3,
    pub up: PackedVec3,
    pub u: PackedVec3,
    pub v: PackedVec3,
    pub w: PackedVec3,
    pub lens_radius: u32,
}

/// The rendering parameters shared by every compute invocation.
#[derive(Clone, Copy, Debug, PartialEq, Eq, Structural)]
pub struct Config {
    pub num_spheres: u32,
    pub sample_count: u32,
    pub max_bounces: u32,
    pub width: u32,
    pub height: u32,
    pub camera: Camera,
}

/// The camera record: eight padded vectors, then the lens radius.
pub open spec fn camera_words(c: Camera) -> Seq<u32> {
    vec3_words(c.origin) + vec3_words(c.lower_left_corner) + vec3_words(c.horizontal)
        + vec3_words(c.vertical) + vec3_words(c.up) + vec3_words(c.u) + vec3_words(c.v)
        + vec3_words(c.w) + seq![c.lens_radius]
}

/// The configuration record: five counts, three words of padding, then the
/// camera record.
pub open spec fn config_words(c: Config) -> Seq<u32> {
    seq![c.num_spheres, c.sample_count, c.max_bounces, c.width, c.height, 0u32, 0u32, 0u32]
        + camera_words(c.camera)
}

impl Camera {
    /// Appends the camera record to `out`.
    pub fn write_words(&self, out: &mut Vec<u32>)
        ensures
            final(out)@ == old(out)@ + camera_words(*self),
    {
        self.origin.write_words(out);
        self.lower_left_corner.write_words(out);
        self.horizontal.write_words(out);
        self.vertical.write_words(out);
        self.up.write_words(out);
        self.u.write_words(out);
        self.v.write_words(out);
        self.w.write_words(out);
        out.push(self.lens_radius);
        assert(out@ =~= old(out)@ + camera_words(*self));
    }
}

impl Config {
    /// The configuration for rendering `scene`: its sphere count is taken
    /// from the scene. `None` if the scene has more spheres than a 32-bit
    /// count holds.
    pub fn for_scene(scene: &Scene, sample_count: u32, max_bounces: u32, width: u32, height: u32, camera: Camera) -> (r: Option<Config>)
        ensures
            r is Some <==> scene@.len() <= u32::MAX,
            r matches Some(c) ==> c == (Config {
                num_spheres: scene@.len() as u32,
                sample_count,
                max_bounces,
                width,
                height,
                camera,
            }),
    {
        let n = scene.len();
        if n > u32::MAX as usize {
            return None;
        }
        Some(Config { num_spheres: n as u32, sample_count, max_bounces, width, height, camera })
    }

    /// The configuration record as words.
    pub fn to_words(&self) -> (r: Vec<u32>)
        ensures
            r@ == config_words(*self),
            r@.len() == CONFIG_WORDS,
    {
        let mut out: Vec<u32> = Vec::new();
        out.push(self.num_spheres);
        out.push(self.sample_count);
        out.push(self.max_bounces);
        out.push(self.width);
        out.push(self.height);
        out.push(0);
        out.push(0);
        out.push(0);
        self.camera.write_words(&mut out);
        assert(out@ =~= config_words(*self));
        out
    }
}

} // verus!
