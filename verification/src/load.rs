//! Caller-authored layout descriptions: a closed set of variants saying how
//! to find a field inside a buffer, named-field tables mapping field names to
//! descriptions, and the byte spans derived from compiled layouts.

use vstd::prelude::*;

verus! {

/// How one field is laid out inside the buffer.
///
/// Offsets and strides are byte counts. `StructField` and `StructArrayField`
/// indirect into nested named-field tables; all other variants are leaves.
/// Descriptions are trees built by the caller; lookups are pure.
#[derive(Debug)]
pub enum LayoutInfo {
    /// A field occupying one contiguous range at the given offset.
    PrimitiveField(u16),
    /// A repeated field: offset, then stride between consecutive elements.
    ArrayField(u16, u16),
    /// An interleaved matrix array: offset, stride between array elements,
    /// stride between the columns of one element.
    MatrixArrayField(u16, u16, u16),
    /// A nested record, described by its own named-field table.
    StructField(LoadStructLayout),
    /// An array of records, one named-field table per element (elements may
    /// be laid out irregularly).
    StructArrayField(Vec<LoadStructLayout>),
}

/// A named-field table: field name to description. Lookup is by exact name
/// match; the first matching entry wins; order is otherwise irrelevant.
#[derive(Debug)]
pub struct LoadStructLayout {
    pub fields: Vec<(String, LayoutInfo)>,
}

/// First entry of `fields` whose name reads `name`, if any.
pub open spec fn lookup_field(fields: Seq<(String, LayoutInfo)>, name: Seq<char>) -> Option<
    LayoutInfo,
>
    decreases fields.len(),
{
    if fields.len() == 0 {
        None
    } else if fields[0].0@ == name {
        Some(fields[0].1)
    } else {
        lookup_field(fields.skip(1), name)
    }
}

/// If no entry among the first `i` matches, the lookup's result is decided
/// by the rest of the table.
proof fn lemma_lookup_field_skip(fields: Seq<(String, LayoutInfo)>, name: Seq<char>, i: int)
    requires
        0 <= i <= fields.len(),
        forall|j: int| 0 <= j < i ==> #[trigger] fields[j].0@ != name,
    ensures
        lookup_field(fields, name) == lookup_field(fields.skip(i), name),
    decreases i,
{
    if i == 0 {
        assert(fields.skip(0) =~= fields);
    } else {
        assert(fields[0].0@ != name);
        assert(forall|j: int|
            0 <= j < i - 1 ==> #[trigger] fields.skip(1)[j].0@ == fields[j + 1].0@);
        lemma_lookup_field_skip(fields.skip(1), name, i - 1);
        assert(fields.skip(1).skip(i - 1) =~= fields.skip(i));
    }
}

impl LoadStructLayout {
    pub fn new(fields: Vec<(String, LayoutInfo)>) -> (r: LoadStructLayout)
        ensures
            r.fields == fields,
    {
        LoadStructLayout { fields }
    }

    /// Description of the field called `field_name`, or `None` if the table
    /// has no such field.
    pub fn get_field_layout(&self, field_name: &String) -> (r: Option<&LayoutInfo>)
        ensures
            match r {
                Some(d) => lookup_field(self.fields@, field_name@) == Some(*d),
                None => lookup_field(self.fields@, field_name@) is None,
            },
    {
        let n = self.fields.len();
        for i in 0..n
            invariant
                n == self.fields.len(),
                forall|j: int| 0 <= j < i ==> #[trigger] self.fields[j].0@ != field_name@,
        {
            if self.fields[i].0 == *field_name {
                proof {
                    lemma_lookup_field_skip(self.fields@, field_name@, i as int);
                    assert(self.fields@.skip(i as int)[0] == self.fields@[i as int]);
                }
                return Some(&self.fields[i].1);
            }
        }
        proof {
            lemma_lookup_field_skip(self.fields@, field_name@, n as int);
        }
        None
    }
}

impl LayoutInfo {
    /// Descriptions themselves support field lookup: a `StructField`
    /// delegates to its table, every other variant has no named fields.
    pub fn get_field_layout(&self, field_name: &String) -> (r: Option<&LayoutInfo>)
        ensures
            match r {
                Some(d) => self matches LayoutInfo::StructField(t) && lookup_field(
                    t.fields@,
                    field_name@,
                ) == Some(*d),
                None => forall|t: LoadStructLayout|
                    *self == LayoutInfo::StructField(t) ==> lookup_field(
                        t.fields@,
                        field_name@,
                    ) is None,
            },
    {
        match self {
            LayoutInfo::StructField(inner) => inner.get_field_layout(field_name),
            _ => None,
        }
    }
}

/// The byte range `[offset, offset + length)` occupied by one leaf field.
///
/// Always recomputed from a compiled layout, never stored; a record's
/// required data length is the maximum span end over all its spans.
#[derive(Debug, Clone, Copy, PartialEq, Eq, Structural)]
pub struct FieldSpan {
    pub offset: u64,
    pub length: u64,
}

impl FieldSpan {
    pub fn new(offset: u64, length: u64) -> (r: FieldSpan)
        ensures
            r.offset == offset,
            r.length == length,
    {
        FieldSpan { offset, length }
    }
}

} // verus!
