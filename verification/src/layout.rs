//! Compiled positional data for single leaf fields: a plain offset, an
//! offset with a stride for repeated elements, and the doubly-strided form
//! used by interleaved matrix arrays.

use vstd::prelude::*;

verus! {

/// Byte position of a field that occupies one contiguous range.
#[derive(Debug, Clone, Copy, PartialEq, Eq, Structural)]
pub struct SimpleFieldLayout {
    pub offset: u16,
}

impl SimpleFieldLayout {
    pub fn new(offset: u16) -> (r: SimpleFieldLayout)
        ensures
            r.offset == offset,
    {
        SimpleFieldLayout { offset }
    }

    pub fn offset(&self) -> (r: u16)
        ensures
            r == self.offset,
    {
        self.offset
    }
}

/// Byte position of a repeated field: element `i` starts at
/// `offset + stride * i`.
#[derive(Debug, Clone, Copy, PartialEq, Eq, Structural)]
pub struct ArrayFieldLayout {
    pub offset: u16,
    pub stride: u16,
}

impl ArrayFieldLayout {
    pub fn new(offset: u16, stride: u16) -> (r: ArrayFieldLayout)
        ensures
            r.offset == offset,
            r.stride == stride,
    {
        ArrayFieldLayout { offset, stride }
    }

    pub fn offset(&self) -> (r: u16)
        ensures
            r == self.offset,
    {
        self.offset
    }

    pub fn stride(&self) -> (r: u16)
        ensures
            r == self.stride,
    {
        self.stride
    }
}

/// Byte position of an interleaved matrix array: element `i`, column `c`
/// starts at `offset + array_stride * i + matrix_stride * c`.
#[derive(Debug, Clone, Copy, PartialEq, Eq, Structural)]
pub struct MatrixArrayFieldLayout {
    pub offset: u16,
    pub array_stride: u16,
    pub matrix_stride: u16,
}

impl MatrixArrayFieldLayout {
    pub fn new(offset: u16, array_stride: u16, matrix_stride: u16) -> (r: MatrixArrayFieldLayout)
        ensures
            r.offset == offset,
            r.array_stride == array_stride,
            r.matrix_stride == matrix_stride,
    {
        MatrixArrayFieldLayout { offset, array_stride, matrix_stride }
    }
}

} // verus!
