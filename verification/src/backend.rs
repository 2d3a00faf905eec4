//! The numbers by which OpenGL knows what a draw call names. They are read
//! from the `gl` crate, whose bindings are generated from the OpenGL registry.

use vstd::prelude::*;
use crate::context::PrimitiveMode;

verus! {

/// Reads `gl::TRIANGLES`, the number of the primitive that takes three
/// indices for each triangle. Taken on trust: the constant is 4, the value
/// of `GL_TRIANGLES` in the OpenGL registry.
#[verifier::external_body]
fn triangles() -> (mode: u32)
    ensures
        mode == 0x0004,
{
    gl::TRIANGLES
}

/// Reads `gl::LINES`, the number of the primitive that takes two indices for
/// each line. Taken on trust: the constant is 1, the value of `GL_LINES` in
/// the OpenGL registry.
#[verifier::external_body]
fn lines() -> (mode: u32)
    ensures
        mode == 0x0001,
{
    gl::LINES
}

/// Reads `gl::UNSIGNED_INT`, the number of the type of unsigned 32-bit
/// indices. Taken on trust: the constant is 0x1405, the value of
/// `GL_UNSIGNED_INT` in the OpenGL registry.
#[verifier::external_body]
fn unsigned_int() -> (kind: u32)
    ensures
        kind == 0x1405,
{
    gl::UNSIGNED_INT
}

/// The number by which OpenGL knows a primitive.
pub open spec fn mode_number(mode: PrimitiveMode) -> u32 {
    match mode {
        PrimitiveMode::Triangles => 0x0004,
        PrimitiveMode::Lines => 0x0001,
    }
}

/// The mode argument of the draw call that draws `mode`.
pub fn draw_mode(mode: PrimitiveMode) -> (number: u32)
    ensures
        number == mode_number(mode),
{
    match mode {
        PrimitiveMode::Triangles => triangles(),
        PrimitiveMode::Lines => lines(),
    }
}

/// The type argument of every draw call: indices are 32 bits wide and
/// unsigned.
pub fn index_type() -> (number: u32)
    ensures
        number == 0x1405,
{
    unsigned_int()
}

} // verus!
