//! Shapes of the matrix field types: `cols` columns of `rows` 32-bit words
//! each, one stride apart, plus their interleaved repeated form.

use vstd::prelude::*;

use crate::field::Field;

verus! {

/// Shape of a matrix field of `cols` columns, each holding `rows` words.
pub fn matrix(cols: u16, rows: u16) -> (r: Field)
    ensures
        r == (Field::Matrix { cols, rows }),
{
    Field::Matrix { cols, rows }
}

/// Shape of an interleaved array of `arity` matrices.
pub fn matrix_array(cols: u16, rows: u16, arity: u16) -> (r: Field)
    ensures
        r == (Field::MatrixArray { cols, rows, arity }),
{
    Field::MatrixArray { cols, rows, arity }
}

} // verus!
