use vstd::prelude::*;

verus! {

/// A value for a shader uniform. Each component is the IEEE-754 bit pattern
/// of a single-precision float, handed to the GPU unchanged.
#[derive(Clone, Copy, PartialEq, Eq, Structural, Debug)]
pub enum Uniform {
    Vec4(u32, u32, u32, u32),
    Vec3(u32, u32, u32),
    Vec2(u32, u32),
    Float(u32),
}

} // verus!
