//! Typed views into a byte buffer, synthesized from a compiled layout.
//!
//! An `Accessor` borrows a node of a `FieldLayout` tree and mirrors it
//! field-for-field: `field` and `index` walk into records and record
//! arrays, and the leaf operations read or write one 32-bit little-endian
//! word at the compiled byte position. Every operation takes the buffer it
//! addresses and re-checks its bounds, so no accessor can outlive or
//! corrupt the buffer: a read or write outside the buffer, outside the
//! field, or against the wrong layout variant reports failure instead.

use vstd::prelude::*;

use crate::field::covered;
use crate::helper::ArrayHelper;
use crate::field::FieldLayout;
use crate::field::StructFieldLayout;
use crate::word_at;
use crate::Data;

verus! {

/// First compiled field of `fields` whose name reads `name`, if any.
pub open spec fn lookup_layout(fields: Seq<StructFieldLayout>, name: Seq<char>) -> Option<
    FieldLayout,
>
    decreases fields.len(),
{
    if fields.len() == 0 {
        None
    } else if fields[0].name@ == name {
        Some(fields[0].layout)
    } else {
        lookup_layout(fields.skip(1), name)
    }
}

/// If no entry among the first `i` matches, the lookup's result is decided
/// by the rest of the fields.
proof fn lemma_lookup_layout_skip(fields: Seq<StructFieldLayout>, name: Seq<char>, i: int)
    requires
        0 <= i <= fields.len(),
        forall|j: int| 0 <= j < i ==> #[trigger] fields[j].name@ != name,
    ensures
        lookup_layout(fields, name) == lookup_layout(fields.skip(i), name),
    decreases i,
{
    if i == 0 {
        assert(fields.skip(0) =~= fields);
    } else {
        assert(fields[0].name@ != name);
        assert(forall|j: int|
            0 <= j < i - 1 ==> #[trigger] fields.skip(1)[j].name@ == fields[j + 1].name@);
        lemma_lookup_layout_skip(fields.skip(1), name, i - 1);
        assert(fields.skip(1).skip(i - 1) =~= fields.skip(i));
    }
}

/// A successful lookup returns the layout of one of the fields.
proof fn lemma_lookup_layout_index(fields: Seq<StructFieldLayout>, name: Seq<char>)
    requires
        lookup_layout(fields, name) is Some,
    ensures
        exists|j: int|
            0 <= j < fields.len() && (#[trigger] fields[j]).layout == lookup_layout(
                fields,
                name,
            )->Some_0,
    decreases fields.len(),
{
    if fields[0].name@ != name {
        lemma_lookup_layout_index(fields.skip(1), name);
        let j = choose|j: int|
            0 <= j < fields.skip(1).len() && (#[trigger] fields.skip(1)[j]).layout
                == lookup_layout(fields.skip(1), name)->Some_0;
        assert(fields[j + 1] == fields.skip(1)[j]);
    }
}

/// A field found in a covered record is itself covered: navigation never
/// leaves the checked byte range.
pub proof fn lemma_field_covered(parent: FieldLayout, l: FieldLayout, name: Seq<char>, len: int)
    requires
        covered(parent, len),
        match parent {
            FieldLayout::Struct { fields } => lookup_layout(fields@, name) == Some(l),
            _ => false,
        },
    ensures
        covered(l, len),
{
    match parent {
        FieldLayout::Struct { fields } => {
            lemma_lookup_layout_index(fields@, name);
        },
        _ => {},
    }
}

/// On a buffer that covers a single-value field, `read_word` and
/// `write_word` are owed success for every word inside the field: only an
/// index out of range can fail, never the buffer.
pub proof fn lemma_covered_word(l: FieldLayout, len: int, w: int)
    requires
        covered(l, len),
        0 <= w,
    ensures
        match l {
            FieldLayout::Primitive { layout, size } => 4 * w + 4 <= size ==> layout.offset + 4 * w
                + 4 <= len,
            _ => true,
        },
{
}

/// On a buffer that covers a repeated field, every in-range element word
/// is owed success.
pub proof fn lemma_covered_array_word(l: FieldLayout, len: int, i: int, w: int)
    requires
        covered(l, len),
        0 <= i,
        0 <= w,
    ensures
        match l {
            FieldLayout::PrimitiveArray { layout, size, arity } => i < arity && 4 * w + 4 <= size
                ==> layout.offset + layout.stride * i + 4 * w + 4 <= len,
            _ => true,
        },
{
}

/// On a buffer that covers a matrix field, every in-range column word is
/// owed success.
pub proof fn lemma_covered_matrix_word(l: FieldLayout, len: int, c: int, row: int)
    requires
        covered(l, len),
        0 <= c,
        0 <= row,
    ensures
        match l {
            FieldLayout::Matrix { layout, cols, rows } => c < cols && row < rows ==> layout.offset
                + layout.stride * c + 4 * row + 4 <= len,
            _ => true,
        },
{
}

/// On a buffer that covers an interleaved matrix array, every in-range
/// element word is owed success.
pub proof fn lemma_covered_matrix_array_word(l: FieldLayout, len: int, i: int, c: int, row: int)
    requires
        covered(l, len),
        0 <= i,
        0 <= c,
        0 <= row,
    ensures
        match l {
            FieldLayout::MatrixArray { layout, cols, rows, arity } => i < arity && c < cols && row
                < rows ==> layout.offset + layout.array_stride * i + layout.matrix_stride * c + 4
                * row + 4 <= len,
            _ => true,
        },
{
}

/// A typed, buffer-checked view of one field, borrowing the compiled
/// layout node that places it.
#[derive(Debug)]
pub struct Accessor<'a> {
    pub layout: &'a FieldLayout,
}

impl<'a> Accessor<'a> {
    /// The view of the named field of this record, or `None` when this is
    /// not a record or has no field of that name.
    #[verifier::loop_isolation(false)]
    pub fn field(&self, name: &String) -> (r: Option<Accessor<'a>>)
        ensures
            match r {
                Some(a) => self.layout matches FieldLayout::Struct { fields } && lookup_layout(
                    fields@,
                    name@,
                ) == Some(*a.layout),
                None => forall|fields: Vec<StructFieldLayout>|
                    *self.layout == (FieldLayout::Struct { fields }) ==> lookup_layout(
                        fields@,
                        name@,
                    ) is None,
            },
    {
        match self.layout {
            FieldLayout::Struct { fields } => {
                let n = fields.len();
                for i in 0..n
                    invariant
                        n == fields.len(),
                        forall|j: int| 0 <= j < i ==> #[trigger] fields[j].name@ != name@,
                {
                    if fields[i].name == *name {
                        proof {
                            lemma_lookup_layout_skip(fields@, name@, i as int);
                            assert(fields@.skip(i as int)[0] == fields@[i as int]);
                        }
                        return Some(Accessor { layout: &fields[i].layout });
                    }
                }
                proof {
                    lemma_lookup_layout_skip(fields@, name@, n as int);
                }
                None
            },
            _ => None,
        }
    }

    /// The view of element `i` of this array of records, or `None` when
    /// this is not a record array or `i` is out of range.
    pub fn index(&self, i: usize) -> (r: Option<Accessor<'a>>)
        ensures
            match r {
                Some(a) => self.layout matches FieldLayout::StructArray { elems } && i
                    < elems@.len() && *a.layout == elems@[i as int],
                None => forall|elems: Vec<FieldLayout>|
                    *self.layout == (FieldLayout::StructArray { elems }) ==> i >= elems@.len(),
            },
    {
        match self.layout {
            FieldLayout::StructArray { elems } => {
                if i < elems.len() {
                    Some(Accessor { layout: &elems[i] })
                } else {
                    None
                }
            },
            _ => None,
        }
    }

    /// Word `w` of this single-value field: the four bytes starting at
    /// `offset + 4 * w`, little-endian. `None` when this is not a
    /// single-value field, the word lies outside the field's size, or the
    /// bytes lie outside the buffer.
    pub fn read_word(&self, data: &Data, w: usize) -> (r: Option<u32>)
        ensures
            match *self.layout {
                FieldLayout::Primitive { layout, size } => {
                    &&& r is Some <==> 4 * w + 4 <= size && layout.offset + 4 * w + 4
                        <= data@.len()
                    &&& r matches Some(v) ==> v == word_at(data@, layout.offset + 4 * w)
                },
                _ => r is None,
            },
    {
        match self.layout {
            FieldLayout::Primitive { layout, size } => {
                if w > 0xFFFF || 4 * (w as u64) + 4 > *size as u64 {
                    return None;
                }
                data.read_word(layout.offset as u64 + 4 * (w as u64))
            },
            _ => None,
        }
    }

    /// Store `val` as word `w` of this single-value field. Returns whether
    /// the write happened; on failure the buffer is untouched.
    pub fn write_word(&self, data: &mut Data, w: usize, val: u32) -> (r: bool)
        ensures
            match *self.layout {
                FieldLayout::Primitive { layout, size } => {
                    &&& r <==> 4 * w + 4 <= size && layout.offset + 4 * w + 4 <= old(
                        data,
                    )@.len()
                    &&& r ==> final(data)@ == crate::store_word(
                        old(data)@,
                        layout.offset + 4 * w,
                        val,
                    )
                },
                _ => !r,
            },
            !r ==> final(data)@ == old(data)@,
    {
        match self.layout {
            FieldLayout::Primitive { layout, size } => {
                if w > 0xFFFF || 4 * (w as u64) + 4 > *size as u64 {
                    return false;
                }
                data.write_word(layout.offset as u64 + 4 * (w as u64), val)
            },
            _ => false,
        }
    }

    /// Word `w` of element `i` of this repeated field: the four bytes at
    /// `offset + stride * i + 4 * w`, little-endian. `None` when this is
    /// not a repeated field or any index or byte is out of range.
    pub fn read_array_word(&self, data: &Data, i: usize, w: usize) -> (r: Option<u32>)
        ensures
            match *self.layout {
                FieldLayout::PrimitiveArray { layout, size, arity } => {
                    &&& r is Some <==> i < arity && 4 * w + 4 <= size && layout.offset
                        + layout.stride * i + 4 * w + 4 <= data@.len()
                    &&& r matches Some(v) ==> v == word_at(
                        data@,
                        layout.offset + layout.stride * i + 4 * w,
                    )
                },
                _ => r is None,
            },
    {
        match self.layout {
            FieldLayout::PrimitiveArray { layout, size, arity } => {
                if i >= *arity as usize || w > 0xFFFF || 4 * (w as u64) + 4 > *size as u64 {
                    return None;
                }
                let base = crate::field::strided_offset(
                    layout.offset as u64,
                    layout.stride as u64,
                    i as u64,
                );
                data.read_word(base + 4 * (w as u64))
            },
            _ => None,
        }
    }

    /// Store `val` as word `w` of element `i` of this repeated field.
    /// Returns whether the write happened; on failure the buffer is
    /// untouched.
    pub fn write_array_word(&self, data: &mut Data, i: usize, w: usize, val: u32) -> (r: bool)
        ensures
            match *self.layout {
                FieldLayout::PrimitiveArray { layout, size, arity } => {
                    &&& r <==> i < arity && 4 * w + 4 <= size && layout.offset + layout.stride * i
                        + 4 * w + 4 <= old(data)@.len()
                    &&& r ==> final(data)@ == crate::store_word(
                        old(data)@,
                        layout.offset + layout.stride * i + 4 * w,
                        val,
                    )
                },
                _ => !r,
            },
            !r ==> final(data)@ == old(data)@,
    {
        match self.layout {
            FieldLayout::PrimitiveArray { layout, size, arity } => {
                if i >= *arity as usize || w > 0xFFFF || 4 * (w as u64) + 4 > *size as u64 {
                    return false;
                }
                let base = crate::field::strided_offset(
                    layout.offset as u64,
                    layout.stride as u64,
                    i as u64,
                );
                data.write_word(base + 4 * (w as u64), val)
            },
            _ => false,
        }
    }

    /// Word `row` of column `c` of this matrix field: the four bytes at
    /// `offset + stride * c + 4 * row`, little-endian. `None` when this is
    /// not a matrix field or any index or byte is out of range.
    pub fn read_matrix_word(&self, data: &Data, c: usize, row: usize) -> (r: Option<u32>)
        ensures
            match *self.layout {
                FieldLayout::Matrix { layout, cols, rows } => {
                    &&& r is Some <==> c < cols && row < rows && layout.offset + layout.stride * c
                        + 4 * row + 4 <= data@.len()
                    &&& r matches Some(v) ==> v == word_at(
                        data@,
                        layout.offset + layout.stride * c + 4 * row,
                    )
                },
                _ => r is None,
            },
    {
        match self.layout {
            FieldLayout::Matrix { layout, cols, rows } => {
                if c >= *cols as usize || row >= *rows as usize {
                    return None;
                }
                let base = crate::field::strided_offset(
                    layout.offset as u64,
                    layout.stride as u64,
                    c as u64,
                );
                data.read_word(base + 4 * (row as u64))
            },
            _ => None,
        }
    }

    /// Store `val` as word `row` of column `c` of this matrix field.
    /// Returns whether the write happened; on failure the buffer is
    /// untouched.
    pub fn write_matrix_word(&self, data: &mut Data, c: usize, row: usize, val: u32) -> (r: bool)
        ensures
            match *self.layout {
                FieldLayout::Matrix { layout, cols, rows } => {
                    &&& r <==> c < cols && row < rows && layout.offset + layout.stride * c + 4
                        * row + 4 <= old(data)@.len()
                    &&& r ==> final(data)@ == crate::store_word(
                        old(data)@,
                        layout.offset + layout.stride * c + 4 * row,
                        val,
                    )
                },
                _ => !r,
            },
            !r ==> final(data)@ == old(data)@,
    {
        match self.layout {
            FieldLayout::Matrix { layout, cols, rows } => {
                if c >= *cols as usize || row >= *rows as usize {
                    return false;
                }
                let base = crate::field::strided_offset(
                    layout.offset as u64,
                    layout.stride as u64,
                    c as u64,
                );
                data.write_word(base + 4 * (row as u64), val)
            },
            _ => false,
        }
    }

    /// Word `row` of column `c` of element `i` of this interleaved matrix
    /// array: the four bytes at
    /// `offset + array_stride * i + matrix_stride * c + 4 * row`,
    /// little-endian. `None` when this is not a matrix array or any index
    /// or byte is out of range.
    pub fn read_matrix_array_word(&self, data: &Data, i: usize, c: usize, row: usize) -> (r: Option<
        u32,
    >)
        ensures
            match *self.layout {
                FieldLayout::MatrixArray { layout, cols, rows, arity } => {
                    &&& r is Some <==> i < arity && c < cols && row < rows && layout.offset
                        + layout.array_stride * i + layout.matrix_stride * c + 4 * row + 4
                        <= data@.len()
                    &&& r matches Some(v) ==> v == word_at(
                        data@,
                        layout.offset + layout.array_stride * i + layout.matrix_stride * c + 4
                            * row,
                    )
                },
                _ => r is None,
            },
    {
        match self.layout {
            FieldLayout::MatrixArray { layout, cols, rows, arity } => {
                if i >= *arity as usize || c >= *cols as usize || row >= *rows as usize {
                    return None;
                }
                let base = crate::field::strided_offset(
                    crate::field::strided_offset(
                        layout.offset as u64,
                        layout.array_stride as u64,
                        i as u64,
                    ),
                    layout.matrix_stride as u64,
                    c as u64,
                );
                data.read_word(base + 4 * (row as u64))
            },
            _ => None,
        }
    }

    /// Store `val` as word `row` of column `c` of element `i` of this
    /// interleaved matrix array. Returns whether the write happened; on
    /// failure the buffer is untouched.
    pub fn write_matrix_array_word(
        &self,
        data: &mut Data,
        i: usize,
        c: usize,
        row: usize,
        val: u32,
    ) -> (r: bool)
        ensures
            match *self.layout {
                FieldLayout::MatrixArray { layout, cols, rows, arity } => {
                    &&& r <==> i < arity && c < cols && row < rows && layout.offset
                        + layout.array_stride * i + layout.matrix_stride * c + 4 * row + 4 <= old(
                        data,
                    )@.len()
                    &&& r ==> final(data)@ == crate::store_word(
                        old(data)@,
                        layout.offset + layout.array_stride * i + layout.matrix_stride * c + 4
                            * row,
                        val,
                    )
                },
                _ => !r,
            },
            !r ==> final(data)@ == old(data)@,
    {
        match self.layout {
            FieldLayout::MatrixArray { layout, cols, rows, arity } => {
                if i >= *arity as usize || c >= *cols as usize || row >= *rows as usize {
                    return false;
                }
                let base = crate::field::strided_offset(
                    crate::field::strided_offset(
                        layout.offset as u64,
                        layout.array_stride as u64,
                        i as u64,
                    ),
                    layout.matrix_stride as u64,
                    c as u64,
                );
                data.write_word(base + 4 * (row as u64), val)
            },
            _ => false,
        }
    }

    /// Positional view of this repeated field, or `None` when this is not
    /// a repeated field.
    pub fn primitive_array(&self) -> (r: Option<PrimitiveArrayAccessor>)
        ensures
            match r {
                Some(pa) => self.layout matches FieldLayout::PrimitiveArray {
                    layout,
                    size,
                    arity,
                } && pa.offset == layout.offset && pa.stride == layout.stride && pa.len == arity,
                None => !(self.layout is PrimitiveArray),
            },
    {
        match self.layout {
            FieldLayout::PrimitiveArray { layout, size, arity } => Some(
                PrimitiveArrayAccessor::new(layout.offset, layout.stride, *arity),
            ),
            _ => None,
        }
    }
}

/// One accessor per element of a compiled array of records, in order,
/// mirroring the element layouts one to one.
#[verifier::loop_isolation(false)]
pub fn make_array_accessor<'a>(elems: &'a Vec<FieldLayout>) -> (r: Vec<Accessor<'a>>)
    ensures
        r@.len() == elems@.len(),
        forall|i: int| 0 <= i < elems@.len() ==> *(#[trigger] r@[i]).layout == elems@[i],
{
    let n = elems.len();
    let mut helper: ArrayHelper<Accessor<'a>> = ArrayHelper::new(n);
    for k in 0..n
        invariant
            helper.spec_arity() == n,
            helper@.len() == k,
            forall|i: int| 0 <= i < k ==> *(#[trigger] helper@[i]).layout == elems@[i],
        decreases n - k,
    {
        let written = helper.write(Accessor { layout: &elems[k] });
        assert(written);
    }
    match helper.into_array() {
        Some(accessors) => accessors,
        None => {
            assert(false);
            Vec::new()
        },
    }
}

/// The positions of a repeated field's elements: element `i` of the `len`
/// elements starts `stride * i` bytes past `offset`.
#[derive(Debug, Clone, Copy, PartialEq, Eq, Structural)]
pub struct PrimitiveArrayAccessor {
    pub offset: u16,
    pub stride: u16,
    pub len: u16,
}

impl PrimitiveArrayAccessor {
    pub fn new(offset: u16, stride: u16, len: u16) -> (r: PrimitiveArrayAccessor)
        ensures
            r.offset == offset,
            r.stride == stride,
            r.len == len,
    {
        PrimitiveArrayAccessor { offset, stride, len }
    }

    /// Byte position of element `i`, or `None` past the end.
    pub fn index(&self, i: usize) -> (r: Option<u64>)
        ensures
            r is Some <==> i < self.len,
            r matches Some(v) ==> v == self.offset + self.stride * i,
    {
        if i < self.len as usize {
            Some(crate::field::strided_offset(self.offset as u64, self.stride as u64, i as u64))
        } else {
            None
        }
    }
}

} // verus!
