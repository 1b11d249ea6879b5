//! Shapes of the primitive field types: 32-bit scalars and the
//! fixed-arity vectors, each a single contiguous range of bytes.

use vstd::prelude::*;

use crate::field::Field;

verus! {

/// Shape of a single 32-bit scalar field (4 bytes).
pub fn scalar() -> (r: Field)
    ensures
        r == (Field::Primitive { size: 4u16 }),
{
    Field::Primitive { size: 4 }
}

/// Shape of a two-component vector field (8 bytes).
pub fn vec2() -> (r: Field)
    ensures
        r == (Field::Primitive { size: 8u16 }),
{
    Field::Primitive { size: 8 }
}

/// Shape of a three-component vector field (12 bytes).
pub fn vec3() -> (r: Field)
    ensures
        r == (Field::Primitive { size: 12u16 }),
{
    Field::Primitive { size: 12 }
}

/// Shape of a four-component vector field (16 bytes).
pub fn vec4() -> (r: Field)
    ensures
        r == (Field::Primitive { size: 16u16 }),
{
    Field::Primitive { size: 16 }
}

/// Shape of a repeated scalar field: `arity` scalars of 4 bytes each.
pub fn scalar_array(arity: u16) -> (r: Field)
    ensures
        r == (Field::PrimitiveArray { size: 4u16, arity }),
{
    Field::PrimitiveArray { size: 4, arity }
}

} // verus!
