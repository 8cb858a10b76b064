use vstd::prelude::*;

verus! {

/// A three-component vector whose components are single-precision values
/// kept as their IEEE-754 bit patterns, the form in which they are written
/// into device buffers. The library never does arithmetic on them.
#[derive(Clone, Copy, Debug, PartialEq, Eq, Structural)]
pub struct PackedVec3 {
    pub x: u32,
    pub y: u32,
    pub z: u32,
}

/// The words of a vector as laid out in a device buffer: three components
/// followed by one word of padding, which is zero.
pub open spec fn vec3_words(v: PackedVec3) -> Seq<u32> {
    seq![v.x, v.y, v.z, 0u32]
}

impl PackedVec3 {
    pub fn new(x: u32, y: u32, z: u32) -> (r: PackedVec3)
        ensures
            r == (PackedVec3 { x, y, z }),
    {
        PackedVec3 { x, y, z }
    }

    /// The vector whose three components are all positive zero.
    pub fn zero() -> (r: PackedVec3)
        ensures
            r == (PackedVec3 { x: 0, y: 0, z: 0 }),
    {
        PackedVec3 { x: 0, y: 0, z: 0 }
    }

    /// Appends the padded layout of this vector to `out`.
    pub fn write_words(&self, out: &mut Vec<u32>)
        ensures
            final(out)@ == old(out)@ + vec3_words(*self),
    {
        out.push(self.x);
        out.push(self.y);
        out.push(self.z);
        out.push(0);
        assert(out@ =~= old(out)@ + vec3_words(*self));
    }
}

} // verus!
