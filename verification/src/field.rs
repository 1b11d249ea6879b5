//! The per-field compilation engine: expected field shapes, compiled layout
//! trees, and the verified translation of a layout description into a
//! compiled layout.
//!
//! A `Field` says what kind of description a field expects (its shape); a
//! `LayoutInfo` says where the caller put the field's bytes. `make_layout`
//! matches the two recursively and produces a `FieldLayout` tree holding the
//! concrete offsets, or `LayoutError` on any shape mismatch, missing field
//! name, or element-count mismatch.
//!
//! Descriptions are trees, so compilation terminates; a caller that builds a
//! circular table cannot be expressed with these owned types.

use vstd::prelude::*;

use crate::layout::ArrayFieldLayout;
use crate::layout::MatrixArrayFieldLayout;
use crate::layout::SimpleFieldLayout;
use crate::load::lookup_field;
use crate::load::LayoutInfo;
use crate::load::LoadStructLayout;
use crate::helper::ArrayHelper;
use crate::load::FieldSpan;
use crate::LayoutError;

verus! {

/// Every span a compiled layout can produce ends below this bound: offsets,
/// strides, arities and word counts are all 16-bit, so a span end is at most
/// `0xFFFF + 2 * 0xFFFF * 0xFFFF + 4 * 0xFFFF`, well under `1 << 36`.
pub const SPAN_END_BOUND: u64 = 0x10_0000_0000;

/// The shape a field expects of its description.
///
/// All sizes are byte counts; matrices are column-major collections of
/// `cols` columns of `rows` 32-bit words each, as the accessor layer reads
/// them.
#[derive(Debug)]
pub enum Field {
    /// A single value occupying `size` contiguous bytes, described by
    /// `LayoutInfo::PrimitiveField`.
    Primitive { size: u16 },
    /// A matrix of `cols` columns, each `rows` words long, described by
    /// `LayoutInfo::ArrayField` (one stride between columns).
    Matrix { cols: u16, rows: u16 },
    /// `arity` repetitions of a `size`-byte value, described by
    /// `LayoutInfo::ArrayField`.
    PrimitiveArray { size: u16, arity: u16 },
    /// `arity` interleaved matrices, described by
    /// `LayoutInfo::MatrixArrayField`.
    MatrixArray { cols: u16, rows: u16, arity: u16 },
    /// A nested record with the given field declarations, described by
    /// `LayoutInfo::StructField`.
    Struct { fields: Vec<FieldDecl> },
    /// `arity` records sharing one declaration list, described by
    /// `LayoutInfo::StructArrayField` with exactly `arity` tables.
    StructArray { fields: Vec<FieldDecl>, arity: u16 },
}

/// One declared field of a record shape: its name and its own shape.
#[derive(Debug)]
pub struct FieldDecl {
    pub name: String,
    pub kind: Field,
}

impl FieldDecl {
    pub fn new(name: String, kind: Field) -> (r: FieldDecl)
        ensures
            r.name == name,
            r.kind == kind,
    {
        FieldDecl { name, kind }
    }
}

/// A compiled layout: the already-validated positional data for one field,
/// mirroring the shape it was compiled for.
#[allow(inconsistent_fields)]
#[derive(Debug)]
pub enum FieldLayout {
    Primitive { layout: SimpleFieldLayout, size: u16 },
    Matrix { layout: ArrayFieldLayout, cols: u16, rows: u16 },
    PrimitiveArray { layout: ArrayFieldLayout, size: u16, arity: u16 },
    MatrixArray { layout: MatrixArrayFieldLayout, cols: u16, rows: u16, arity: u16 },
    Struct { fields: Vec<StructFieldLayout> },
    StructArray { elems: Vec<FieldLayout> },
}

/// One compiled field of a record: its name and its compiled layout.
#[derive(Debug)]
pub struct StructFieldLayout {
    pub name: String,
    pub layout: FieldLayout,
}

/// Whether compiling `shape` against `desc` succeeds.
pub open spec fn compiles(shape: Field, desc: LayoutInfo) -> bool
    decreases shape,
{
    match shape {
        Field::Primitive { size } => desc is PrimitiveField,
        Field::Matrix { cols, rows } => desc is ArrayField,
        Field::PrimitiveArray { size, arity } => desc is ArrayField,
        Field::MatrixArray { cols, rows, arity } => desc is MatrixArrayField,
        Field::Struct { fields } => match desc {
            LayoutInfo::StructField(table) => compiles_fields(fields@, table),
            _ => false,
        },
        Field::StructArray { fields, arity } => match desc {
            LayoutInfo::StructArrayField(tables) => tables@.len() == arity && forall|k: int|
                0 <= k < tables@.len() ==> compiles_fields(fields@, #[trigger] tables@[k]),
            _ => false,
        },
    }
}

/// Whether every declared field is present in `table` and compiles.
pub open spec fn compiles_fields(decls: Seq<FieldDecl>, table: LoadStructLayout) -> bool
    decreases decls,
{
    forall|j: int| 0 <= j < decls.len() ==> compiles_entry(#[trigger] decls[j], table)
}

/// Whether one declared field is present in `table` and compiles.
pub open spec fn compiles_entry(decl: FieldDecl, table: LoadStructLayout) -> bool
    decreases decl,
{
    match lookup_field(table.fields@, decl.name@) {
        Some(desc) => compiles(decl.kind, desc),
        None => false,
    }
}

/// The compilation relation: `l` is the compiled layout of `desc` for a
/// field of shape `shape`. `make_layout` returns exactly the layouts in
/// this relation.
pub open spec fn layout_matches(shape: Field, desc: LayoutInfo, l: FieldLayout) -> bool
    decreases shape,
{
    match shape {
        Field::Primitive { size } => match desc {
            LayoutInfo::PrimitiveField(offset) => l == (FieldLayout::Primitive {
                layout: SimpleFieldLayout { offset },
                size,
            }),
            _ => false,
        },
        Field::Matrix { cols, rows } => match desc {
            LayoutInfo::ArrayField(offset, stride) => l == (FieldLayout::Matrix {
                layout: ArrayFieldLayout { offset, stride },
                cols,
                rows,
            }),
            _ => false,
        },
        Field::PrimitiveArray { size, arity } => match desc {
            LayoutInfo::ArrayField(offset, stride) => l == (FieldLayout::PrimitiveArray {
                layout: ArrayFieldLayout { offset, stride },
                size,
                arity,
            }),
            _ => false,
        },
        Field::MatrixArray { cols, rows, arity } => match desc {
            LayoutInfo::MatrixArrayField(offset, array_stride, matrix_stride) => l == (
            FieldLayout::MatrixArray {
                layout: MatrixArrayFieldLayout { offset, array_stride, matrix_stride },
                cols,
                rows,
                arity,
            }),
            _ => false,
        },
        Field::Struct { fields } => match desc {
            LayoutInfo::StructField(table) => match l {
                FieldLayout::Struct { fields: compiled } => fields_match(
                    fields@,
                    table,
                    compiled@,
                ),
                _ => false,
            },
            _ => false,
        },
        Field::StructArray { fields, arity } => match desc {
            LayoutInfo::StructArrayField(tables) => match l {
                FieldLayout::StructArray { elems } => {
                    &&& tables@.len() == arity
                    &&& elems@.len() == arity
                    &&& forall|k: int|
                        0 <= k < arity ==> elem_matches(fields@, tables@[k], #[trigger] elems@[k])
                },
                _ => false,
            },
            _ => false,
        },
    }
}

/// One struct-array element: a record layout compiled from its own table.
pub open spec fn elem_matches(
    decls: Seq<FieldDecl>,
    table: LoadStructLayout,
    elem: FieldLayout,
) -> bool
    decreases decls, 1int,
{
    match elem {
        FieldLayout::Struct { fields: compiled } => fields_match(decls, table, compiled@),
        _ => false,
    }
}

/// The compiled fields of a record, in declaration order.
pub open spec fn fields_match(
    decls: Seq<FieldDecl>,
    table: LoadStructLayout,
    compiled: Seq<StructFieldLayout>,
) -> bool
    decreases decls, 0int,
{
    &&& compiled.len() == decls.len()
    &&& forall|j: int|
        0 <= j < decls.len() ==> entry_matches(#[trigger] decls[j], table, compiled[j])
}

/// One compiled record field: keeps its declared name and is compiled from
/// the description found under that name.
pub open spec fn entry_matches(
    decl: FieldDecl,
    table: LoadStructLayout,
    compiled: StructFieldLayout,
) -> bool
    decreases decl,
{
    &&& compiled.name@ == decl.name@
    &&& match lookup_field(table.fields@, decl.name@) {
        Some(desc) => layout_matches(decl.kind, desc, compiled.layout),
        None => false,
    }
}

/// Compile one field's description against its expected shape.
///
/// Fails exactly when the description's variant does not match the shape,
/// a declared name is missing from a table, or a struct-array's table count
/// differs from the declared arity; on failure nothing partial is returned.
pub fn make_layout(shape: &Field, desc: &LayoutInfo) -> (r: Result<FieldLayout, LayoutError>)
    ensures
        r is Ok <==> compiles(*shape, *desc),
        r matches Ok(l) ==> layout_matches(*shape, *desc, l),
    decreases *shape, 2int,
{
    match shape {
        Field::Primitive { size } => match desc {
            LayoutInfo::PrimitiveField(offset) => Ok(
                FieldLayout::Primitive { layout: SimpleFieldLayout::new(*offset), size: *size },
            ),
            _ => Err(LayoutError),
        },
        Field::Matrix { cols, rows } => match desc {
            LayoutInfo::ArrayField(offset, stride) => Ok(
                FieldLayout::Matrix {
                    layout: ArrayFieldLayout::new(*offset, *stride),
                    cols: *cols,
                    rows: *rows,
                },
            ),
            _ => Err(LayoutError),
        },
        Field::PrimitiveArray { size, arity } => match desc {
            LayoutInfo::ArrayField(offset, stride) => Ok(
                FieldLayout::PrimitiveArray {
                    layout: ArrayFieldLayout::new(*offset, *stride),
                    size: *size,
                    arity: *arity,
                },
            ),
            _ => Err(LayoutError),
        },
        Field::MatrixArray { cols, rows, arity } => match desc {
            LayoutInfo::MatrixArrayField(offset, array_stride, matrix_stride) => Ok(
                FieldLayout::MatrixArray {
                    layout: MatrixArrayFieldLayout::new(*offset, *array_stride, *matrix_stride),
                    cols: *cols,
                    rows: *rows,
                    arity: *arity,
                },
            ),
            _ => Err(LayoutError),
        },
        Field::Struct { fields } => match desc {
            LayoutInfo::StructField(table) => {
                proof {
                    assert(decreases_to!(*shape => fields@));
                }
                match make_struct_layout(fields, table) {
                    Ok(compiled) => Ok(FieldLayout::Struct { fields: compiled }),
                    Err(e) => Err(e),
                }
            },
            _ => Err(LayoutError),
        },
        Field::StructArray { fields, arity } => {
            proof {
                assert(decreases_to!(*shape => fields@));
            }
            match make_array_layout(fields, *arity, desc) {
                Ok(elems) => Ok(FieldLayout::StructArray { elems }),
                Err(e) => Err(e),
            }
        },
    }
}

/// Compile every declared field of a record by looking its name up in the
/// table and compiling the description found there.
#[verifier::loop_isolation(false)]
pub fn make_struct_layout(decls: &Vec<FieldDecl>, table: &LoadStructLayout) -> (r: Result<
    Vec<StructFieldLayout>,
    LayoutError,
>)
    ensures
        r is Ok <==> compiles_fields(decls@, *table),
        r matches Ok(compiled) ==> fields_match(decls@, *table, compiled@),
    decreases decls@, 0int,
{
    let mut compiled: Vec<StructFieldLayout> = Vec::new();
    let n = decls.len();
    for j in 0..n
        invariant
            compiled@.len() == j,
            forall|i: int| 0 <= i < j ==> compiles_entry(#[trigger] decls@[i], *table),
            forall|i: int|
                0 <= i < j ==> entry_matches(#[trigger] decls@[i], *table, compiled@[i]),
        decreases n - j,
    {
        let decl = &decls[j];
        match table.get_field_layout(&decl.name) {
            Some(desc) => {
                proof {
                    assert(decreases_to!(decls@ => decls@[j as int].kind));
                }
                match make_layout(&decl.kind, desc) {
                    Ok(l) => {
                        compiled.push(StructFieldLayout { name: decl.name.clone(), layout: l });
                    },
                    Err(e) => {
                        assert(!compiles_entry(decls@[j as int], *table));
                        return Err(e);
                    },
                }
            },
            None => {
                assert(!compiles_entry(decls@[j as int], *table));
                return Err(LayoutError);
            },
        }
    }
    Ok(compiled)
}

/// Compile an array-of-records description: there must be exactly `arity`
/// element tables, and every element must compile against the shared
/// declaration list. A count mismatch fails; nothing is truncated or padded.
#[verifier::loop_isolation(false)]
pub fn make_array_layout(decls: &Vec<FieldDecl>, arity: u16, desc: &LayoutInfo) -> (r: Result<
    Vec<FieldLayout>,
    LayoutError,
>)
    ensures
        r is Ok <==> compiles(
            Field::StructArray { fields: *decls, arity },
            *desc,
        ),
        r matches Ok(elems) ==> layout_matches(
            Field::StructArray { fields: *decls, arity },
            *desc,
            FieldLayout::StructArray { elems },
        ),
    decreases decls@, 1int,
{
    let tables = match desc {
        LayoutInfo::StructArrayField(tables) => tables,
        _ => {
            return Err(LayoutError);
        },
    };
    if tables.len() != arity as usize {
        return Err(LayoutError);
    }
    let n = tables.len();
    let mut helper: ArrayHelper<FieldLayout> = ArrayHelper::new(n);
    for k in 0..n
        invariant
            helper.spec_arity() == n,
            helper@.len() == k,
            forall|i: int| 0 <= i < k ==> compiles_fields(decls@, #[trigger] tables@[i]),
            forall|i: int|
                0 <= i < k ==> elem_matches(decls@, tables@[i], #[trigger] helper@[i]),
        decreases n - k,
    {
        match make_struct_layout(decls, &tables[k]) {
            Ok(compiled) => {
                let written = helper.write(FieldLayout::Struct { fields: compiled });
                assert(written);
            },
            Err(e) => {
                return Err(e);
            },
        }
    }
    match helper.into_array() {
        Some(elems) => Ok(elems),
        None => {
            assert(false);
            Err(LayoutError)
        },
    }
}

/// The byte spans a compiled layout occupies, one per leaf element, in
/// field order. Spans may overlap or leave gaps; no coverage is implied.
pub open spec fn spans_of(l: FieldLayout) -> Seq<FieldSpan>
    decreases l, 1int,
{
    match l {
        FieldLayout::Primitive { layout, size } => seq![
            FieldSpan { offset: layout.offset as u64, length: size as u64 },
        ],
        FieldLayout::Matrix { layout, cols, rows } => Seq::new(
            cols as nat,
            |c: int|
                FieldSpan {
                    offset: (layout.offset + layout.stride * c) as u64,
                    length: (4 * rows) as u64,
                },
        ),
        FieldLayout::PrimitiveArray { layout, size, arity } => Seq::new(
            arity as nat,
            |i: int|
                FieldSpan {
                    offset: (layout.offset + layout.stride * i) as u64,
                    length: size as u64,
                },
        ),
        FieldLayout::MatrixArray { layout, cols, rows, arity } => Seq::new(
            (arity * cols) as nat,
            |k: int|
                FieldSpan {
                    offset: (layout.offset + layout.array_stride * (k / (cols as int))
                        + layout.matrix_stride * (k % (cols as int))) as u64,
                    length: (4 * rows) as u64,
                },
        ),
        FieldLayout::Struct { fields } => struct_spans(fields@),
        FieldLayout::StructArray { elems } => array_spans(elems@),
    }
}

/// Concatenated spans of a record's compiled fields, in field order.
pub open spec fn struct_spans(fields: Seq<StructFieldLayout>) -> Seq<FieldSpan>
    decreases fields, 0int,
{
    if fields.len() == 0 {
        Seq::empty()
    } else {
        struct_spans(fields.drop_last()).add(spans_of(fields.last().layout))
    }
}

/// Concatenated spans of a sequence of compiled layouts, in order.
pub open spec fn array_spans(elems: Seq<FieldLayout>) -> Seq<FieldSpan>
    decreases elems, 0int,
{
    if elems.len() == 0 {
        Seq::empty()
    } else {
        array_spans(elems.drop_last()).add(spans_of(elems.last()))
    }
}

/// `offset + stride * i`, computed without overflow.
pub(crate) fn strided_offset(offset: u64, stride: u64, i: u64) -> (r: u64)
    requires
        offset < 0x2_0000_0000,
        stride <= 0xFFFF,
        i <= 0xFFFF,
    ensures
        r == offset + stride * i,
        r < offset + 0x1_0000_0000,
{
    proof {
        assert(stride * i <= 0xFFFF * 0xFFFF) by (nonlinear_arith)
            requires
                stride <= 0xFFFF,
                i <= 0xFFFF,
                0 <= stride,
                0 <= i,
        ;
    }
    offset + stride * i
}

/// Enumerate the spans of a compiled layout.
///
/// Every span end also stays below `SPAN_END_BOUND`, so callers can sum
/// offset and length without overflow.
#[verifier::loop_isolation(false)]
pub fn get_field_spans(layout: &FieldLayout) -> (r: Vec<FieldSpan>)
    ensures
        r@ == spans_of(*layout),
        forall|i: int|
            0 <= i < r@.len() ==> (#[trigger] r@[i]).offset + r@[i].length < SPAN_END_BOUND,
    decreases *layout, 1int,
{
    match layout {
        FieldLayout::Primitive { layout, size } => {
            let mut r: Vec<FieldSpan> = Vec::new();
            r.push(FieldSpan::new(layout.offset as u64, *size as u64));
            proof {
                assert(r@ =~= spans_of(FieldLayout::Primitive { layout: *layout, size: *size }));
            }
            r
        },
        FieldLayout::Matrix { layout, cols, rows } => {
            let mut r: Vec<FieldSpan> = Vec::new();
            let length: u64 = 4 * (*rows as u64);
            let n = *cols as usize;
            for c in 0..n
                invariant
                    r@.len() == c,
                    forall|j: int|
                        0 <= j < c ==> #[trigger] r@[j] == spans_of(
                            FieldLayout::Matrix { layout: *layout, cols: *cols, rows: *rows },
                        )[j],
                    forall|j: int|
                        0 <= j < c ==> (#[trigger] r@[j]).offset + r@[j].length < SPAN_END_BOUND,
                decreases n - c,
            {
                let offset = strided_offset(layout.offset as u64, layout.stride as u64, c as u64);
                r.push(FieldSpan::new(offset, length));
            }
            proof {
                assert(r@ =~= spans_of(
                    FieldLayout::Matrix { layout: *layout, cols: *cols, rows: *rows },
                ));
            }
            r
        },
        FieldLayout::PrimitiveArray { layout, size, arity } => {
            let mut r: Vec<FieldSpan> = Vec::new();
            let n = *arity as usize;
            for i in 0..n
                invariant
                    r@.len() == i,
                    forall|j: int|
                        0 <= j < i ==> #[trigger] r@[j] == spans_of(
                            FieldLayout::PrimitiveArray {
                                layout: *layout,
                                size: *size,
                                arity: *arity,
                            },
                        )[j],
                    forall|j: int|
                        0 <= j < i ==> (#[trigger] r@[j]).offset + r@[j].length < SPAN_END_BOUND,
                decreases n - i,
            {
                let offset = strided_offset(layout.offset as u64, layout.stride as u64, i as u64);
                r.push(FieldSpan::new(offset, *size as u64));
            }
            proof {
                assert(r@ =~= spans_of(
                    FieldLayout::PrimitiveArray { layout: *layout, size: *size, arity: *arity },
                ));
            }
            r
        },
        FieldLayout::MatrixArray { layout, cols, rows, arity } => {
            let mut r: Vec<FieldSpan> = Vec::new();
            let length: u64 = 4 * (*rows as u64);
            proof {
                assert((*arity as int) * (*cols as int) <= 0xFFFF * 0xFFFF) by (nonlinear_arith)
                    requires
                        0 <= *arity as int <= 0xFFFF,
                        0 <= *cols as int <= 0xFFFF,
                ;
            }
            let n = (*arity as usize) * (*cols as usize);
            for k in 0..n
                invariant
                    r@.len() == k,
                    n == (*arity as int) * (*cols as int),
                    forall|j: int|
                        0 <= j < k ==> #[trigger] r@[j] == spans_of(
                            FieldLayout::MatrixArray {
                                layout: *layout,
                                cols: *cols,
                                rows: *rows,
                                arity: *arity,
                            },
                        )[j],
                    forall|j: int|
                        0 <= j < k ==> (#[trigger] r@[j]).offset + r@[j].length < SPAN_END_BOUND,
                decreases n - k,
            {
                proof {
                    assert(*cols as int != 0) by {
                        if *cols as int == 0 {
                            assert((*arity as int) * 0 == 0) by (nonlinear_arith);
                        }
                    }
                }
                let i = k / (*cols as usize);
                let c = k % (*cols as usize);
                proof {
                    let ar = *arity as int;
                    let co = *cols as int;
                    let kk = k as int;
                    assert(i <= 0xFFFF && c <= 0xFFFF) by (nonlinear_arith)
                        requires
                            i == kk / co,
                            c == kk % co,
                            0 < co <= 0xFFFF,
                            0 <= kk < ar * co,
                            ar <= 0xFFFF,
                    ;
                }
                let offset = strided_offset(
                    strided_offset(layout.offset as u64, layout.array_stride as u64, i as u64),
                    layout.matrix_stride as u64,
                    c as u64,
                );
                r.push(FieldSpan::new(offset, length));
            }
            proof {
                assert(r@ =~= spans_of(
                    FieldLayout::MatrixArray {
                        layout: *layout,
                        cols: *cols,
                        rows: *rows,
                        arity: *arity,
                    },
                ));
            }
            r
        },
        FieldLayout::Struct { fields } => {
            proof {
                assert(decreases_to!(*layout => fields@));
            }
            get_struct_field_spans(fields)
        },
        FieldLayout::StructArray { elems } => {
            proof {
                assert(decreases_to!(*layout => elems@));
            }
            get_array_field_spans(elems)
        },
    }
}

/// Concatenate the spans of a record's compiled fields.
#[verifier::loop_isolation(false)]
pub fn get_struct_field_spans(fields: &Vec<StructFieldLayout>) -> (r: Vec<FieldSpan>)
    ensures
        r@ == struct_spans(fields@),
        forall|i: int|
            0 <= i < r@.len() ==> (#[trigger] r@[i]).offset + r@[i].length < SPAN_END_BOUND,
    decreases fields@, 0int,
{
    let mut r: Vec<FieldSpan> = Vec::new();
    let n = fields.len();
    for j in 0..n
        invariant
            r@ == struct_spans(fields@.take(j as int)),
            forall|i: int|
                0 <= i < r@.len() ==> (#[trigger] r@[i]).offset + r@[i].length < SPAN_END_BOUND,
        decreases n - j,
    {
        proof {
            assert(decreases_to!(fields@ => fields@[j as int].layout));
        }
        let mut spans = get_field_spans(&fields[j].layout);
        r.append(&mut spans);
        proof {
            assert(fields@.take(j + 1).drop_last() =~= fields@.take(j as int));
            assert(fields@.take(j + 1).last() == fields@[j as int]);
        }
    }
    proof {
        assert(fields@.take(n as int) =~= fields@);
    }
    r
}

/// Concatenate the spans of a sequence of compiled layouts, one record
/// element after another.
#[verifier::loop_isolation(false)]
pub fn get_array_field_spans(elems: &Vec<FieldLayout>) -> (r: Vec<FieldSpan>)
    ensures
        r@ == array_spans(elems@),
        forall|i: int|
            0 <= i < r@.len() ==> (#[trigger] r@[i]).offset + r@[i].length < SPAN_END_BOUND,
    decreases elems@, 0int,
{
    let mut r: Vec<FieldSpan> = Vec::new();
    let n = elems.len();
    for k in 0..n
        invariant
            r@ == array_spans(elems@.take(k as int)),
            forall|i: int|
                0 <= i < r@.len() ==> (#[trigger] r@[i]).offset + r@[i].length < SPAN_END_BOUND,
        decreases n - k,
    {
        proof {
            assert(decreases_to!(elems@ => elems@[k as int]));
        }
        let mut spans = get_field_spans(&elems[k]);
        r.append(&mut spans);
        proof {
            assert(elems@.take(k + 1).drop_last() =~= elems@.take(k as int));
            assert(elems@.take(k + 1).last() == elems@[k as int]);
        }
    }
    proof {
        assert(elems@.take(n as int) =~= elems@);
    }
    r
}

/// The greatest span end, `offset + length`, over a span sequence; `0` when
/// there are no spans. A buffer of at least this many bytes holds every
/// span.
pub open spec fn max_span_end(spans: Seq<FieldSpan>) -> int
    decreases spans.len(),
{
    if spans.len() == 0 {
        0
    } else {
        let prev = max_span_end(spans.drop_last());
        let e = spans.last().offset + spans.last().length;
        if e > prev {
            e
        } else {
            prev
        }
    }
}

/// The maximum is nonnegative.
proof fn lemma_max_span_end_nonneg(spans: Seq<FieldSpan>)
    ensures
        max_span_end(spans) >= 0,
    decreases spans.len(),
{
    if spans.len() > 0 {
        lemma_max_span_end_nonneg(spans.drop_last());
    }
}

/// Every span ends at or before the maximum span end.
pub proof fn lemma_max_span_end_ge(spans: Seq<FieldSpan>, i: int)
    requires
        0 <= i < spans.len(),
    ensures
        spans[i].offset + spans[i].length <= max_span_end(spans),
    decreases spans.len(),
{
    if i < spans.len() - 1 {
        lemma_max_span_end_ge(spans.drop_last(), i);
    }
}

/// Concatenation can only raise the maximum span end.
proof fn lemma_max_span_end_concat(s1: Seq<FieldSpan>, s2: Seq<FieldSpan>)
    ensures
        max_span_end(s1) <= max_span_end(s1.add(s2)),
        max_span_end(s2) <= max_span_end(s1.add(s2)),
    decreases s2.len(),
{
    if s2.len() == 0 {
        assert(s1.add(s2) =~= s1);
        lemma_max_span_end_nonneg(s1);
    } else {
        lemma_max_span_end_concat(s1, s2.drop_last());
        assert(s1.add(s2).drop_last() =~= s1.add(s2.drop_last()));
        assert(s1.add(s2).last() == s2.last());
    }
}

/// Find the maximum span end of an enumerated span list.
#[verifier::loop_isolation(false)]
fn compute_max_span_end(spans: &Vec<FieldSpan>) -> (r: u64)
    requires
        forall|i: int|
            0 <= i < spans@.len() ==> (#[trigger] spans@[i]).offset + spans@[i].length
                < SPAN_END_BOUND,
    ensures
        r == max_span_end(spans@),
        r < SPAN_END_BOUND,
{
    let mut m: u64 = 0;
    let n = spans.len();
    for j in 0..n
        invariant
            m == max_span_end(spans@.take(j as int)),
            m < SPAN_END_BOUND,
        decreases n - j,
    {
        let e = spans[j].offset + spans[j].length;
        if e > m {
            m = e;
        }
        proof {
            assert(spans@.take(j + 1).drop_last() =~= spans@.take(j as int));
            assert(spans@.take(j + 1).last() == spans@[j as int]);
        }
    }
    proof {
        assert(spans@.take(n as int) =~= spans@);
    }
    m
}

/// The number of bytes a buffer must hold for every span of the layout:
/// the maximum `offset + length` over all of the layout's spans.
pub fn required_data_len(layout: &FieldLayout) -> (r: u64)
    ensures
        r == max_span_end(spans_of(*layout)),
        r < SPAN_END_BOUND,
{
    let spans = get_field_spans(layout);
    compute_max_span_end(&spans)
}

/// Every byte range the layout's accessors can touch lies within the first
/// `len` bytes of a buffer.
pub open spec fn covered(l: FieldLayout, len: int) -> bool
    decreases l, 1int,
{
    match l {
        FieldLayout::Primitive { layout, size } => layout.offset + size <= len,
        FieldLayout::Matrix { layout, cols, rows } => forall|c: int|
            0 <= c < cols ==> layout.offset + #[trigger] (layout.stride * c) + 4 * rows <= len,
        FieldLayout::PrimitiveArray { layout, size, arity } => forall|i: int|
            0 <= i < arity ==> layout.offset + #[trigger] (layout.stride * i) + size <= len,
        FieldLayout::MatrixArray { layout, cols, rows, arity } => forall|i: int, c: int|
            0 <= i < arity && 0 <= c < cols ==> layout.offset + #[trigger] (layout.array_stride
                * i) + #[trigger] (layout.matrix_stride * c) + 4 * rows <= len,
        FieldLayout::Struct { fields } => forall|j: int|
            0 <= j < fields@.len() ==> covered((#[trigger] fields@[j]).layout, len),
        FieldLayout::StructArray { elems } => forall|k: int|
            0 <= k < elems@.len() ==> covered(#[trigger] elems@[k], len),
    }
}

/// A child's spans never exceed the record's maximum span end.
proof fn lemma_struct_spans_child(fields: Seq<StructFieldLayout>, j: int)
    requires
        0 <= j < fields.len(),
    ensures
        max_span_end(spans_of(fields[j].layout)) <= max_span_end(struct_spans(fields)),
    decreases fields.len(),
{
    lemma_max_span_end_concat(
        struct_spans(fields.drop_last()),
        spans_of(fields.last().layout),
    );
    if j < fields.len() - 1 {
        lemma_struct_spans_child(fields.drop_last(), j);
    }
}

/// An element's spans never exceed the array's maximum span end.
proof fn lemma_array_spans_child(elems: Seq<FieldLayout>, k: int)
    requires
        0 <= k < elems.len(),
    ensures
        max_span_end(spans_of(elems[k])) <= max_span_end(array_spans(elems)),
    decreases elems.len(),
{
    lemma_max_span_end_concat(array_spans(elems.drop_last()), spans_of(elems.last()));
    if k < elems.len() - 1 {
        lemma_array_spans_child(elems.drop_last(), k);
    }
}

/// A buffer that reaches the maximum span end holds every byte range of the
/// layout: with `required_data_len` bytes available, every access the
/// layout describes is in bounds.
pub proof fn lemma_max_end_covered(l: FieldLayout, len: int)
    requires
        max_span_end(spans_of(l)) <= len,
    ensures
        covered(l, len),
    decreases l,
{
    match l {
        FieldLayout::Primitive { layout, size } => {
            lemma_max_span_end_ge(spans_of(l), 0);
        },
        FieldLayout::Matrix { layout, cols, rows } => {
            assert forall|c: int|
                0 <= c < cols implies layout.offset + #[trigger] (layout.stride * c) + 4 * rows
                <= len by {
                lemma_max_span_end_ge(spans_of(l), c);
                assert(0 <= layout.stride * c <= 0xFFFF * 0xFFFF) by (nonlinear_arith)
                    requires
                        0 <= layout.stride <= 0xFFFF,
                        0 <= c <= 0xFFFF,
                ;
            }
        },
        FieldLayout::PrimitiveArray { layout, size, arity } => {
            assert forall|i: int|
                0 <= i < arity implies layout.offset + #[trigger] (layout.stride * i) + size
                <= len by {
                lemma_max_span_end_ge(spans_of(l), i);
                assert(0 <= layout.stride * i <= 0xFFFF * 0xFFFF) by (nonlinear_arith)
                    requires
                        0 <= layout.stride <= 0xFFFF,
                        0 <= i <= 0xFFFF,
                ;
            }
        },
        FieldLayout::MatrixArray { layout, cols, rows, arity } => {
            assert forall|i: int, c: int|
                0 <= i < arity && 0 <= c < cols implies layout.offset + #[trigger] (
            layout.array_stride * i) + #[trigger] (layout.matrix_stride * c) + 4 * rows <= len by {
                let co = cols as int;
                let k = i * co + c;
                assert(0 <= k < arity * co && k / co == i && k % co == c) by {
                    assert(0 <= k && k + 1 <= arity * co) by (nonlinear_arith)
                        requires
                            0 <= i < arity as int,
                            0 <= c < co,
                            k == i * co + c,
                    ;
                    vstd::arithmetic::div_mod::lemma_fundamental_div_mod_converse(k, co, i, c);
                }
                lemma_max_span_end_ge(spans_of(l), k);
                assert(0 <= layout.array_stride * i <= 0xFFFF * 0xFFFF && 0
                    <= layout.matrix_stride * c <= 0xFFFF * 0xFFFF) by (nonlinear_arith)
                    requires
                        0 <= layout.array_stride <= 0xFFFF,
                        0 <= layout.matrix_stride <= 0xFFFF,
                        0 <= i <= 0xFFFF,
                        0 <= c <= 0xFFFF,
                ;
            }
        },
        FieldLayout::Struct { fields } => {
            assert forall|j: int|
                0 <= j < fields@.len() implies covered((#[trigger] fields@[j]).layout, len) by {
                lemma_struct_spans_child(fields@, j);
                lemma_max_end_covered(fields@[j].layout, len);
            }
        },
        FieldLayout::StructArray { elems } => {
            assert forall|k: int|
                0 <= k < elems@.len() implies covered(#[trigger] elems@[k], len) by {
                lemma_array_spans_child(elems@, k);
                lemma_max_end_covered(elems@[k], len);
            }
        },
    }
}

/// A single-value field compiles to exactly one span: the description's
/// offset, and the field type's byte size as the length.
pub proof fn lemma_primitive_field_spans(size: u16, offset: u16, l: FieldLayout)
    requires
        layout_matches(Field::Primitive { size }, LayoutInfo::PrimitiveField(offset), l),
    ensures
        spans_of(l) == seq![FieldSpan { offset: offset as u64, length: size as u64 }],
{
}

/// A repeated field of stride `stride` and arity `arity` compiles to
/// `arity` spans, at offsets `offset`, `offset + stride`,
/// `offset + 2 * stride`, and so on, each of the element's byte size.
pub proof fn lemma_array_field_spans(size: u16, arity: u16, offset: u16, stride: u16, l: FieldLayout)
    requires
        layout_matches(
            Field::PrimitiveArray { size, arity },
            LayoutInfo::ArrayField(offset, stride),
            l,
        ),
    ensures
        spans_of(l).len() == arity,
        forall|i: int|
            0 <= i < arity ==> #[trigger] spans_of(l)[i] == (FieldSpan {
                offset: (offset + stride * i) as u64,
                length: size as u64,
            }),
{
}

} // verus!
