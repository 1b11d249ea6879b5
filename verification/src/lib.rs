//! Run-time description of packed binary record layouts, with verified
//! compilation of descriptions into concrete byte offsets and bounds-checked,
//! copy-on-access views into a caller-supplied byte buffer.
//!
//! A caller supplies a named-field table mapping field names to
//! `LayoutInfo` descriptions; `DynamicLayout::load_layout` compiles it
//! recursively into a `FieldLayout` tree and a precomputed required byte
//! length; `CompiledLayout::make_accessor` validates a buffer's length once
//! and hands out an `Accessor` whose reads and writes address 32-bit
//! little-endian words at the compiled offsets. Accessors never own the
//! bytes: every access takes the buffer and is checked against it.

use vstd::prelude::*;

pub mod accessor;
pub mod field;
pub mod helper;
pub mod layout;
pub mod load;
pub mod matrix_types;
pub mod primitive_types;
pub mod vector_types;

pub use accessor::make_array_accessor;
pub use field::get_array_field_spans;
pub use field::make_array_layout;
pub use field::make_layout;
pub use field::Field;

use crate::field::compiles_fields;
use crate::field::covered;
use crate::field::fields_match;
use crate::field::lemma_max_end_covered;
use crate::field::max_span_end;
use crate::field::required_data_len;
use crate::field::spans_of;
use crate::field::FieldLayout;
use crate::load::LoadStructLayout;

verus! {

/// Compilation failed: a description's variant did not match the field's
/// expected kind, a named field was missing, or an element count disagreed
/// with the destination arity.
#[derive(Debug)]
pub struct LayoutError;

/// Accessor synthesis failed: the buffer is shorter than the compiled
/// layout requires. Carries both byte counts.
#[derive(Debug)]
pub struct AccessorError {
    pub required_data_len: u64,
    pub data_len: u64,
}

/// The 32-bit word encoded little-endian by four bytes.
pub open spec fn word_from_bytes(b0: u8, b1: u8, b2: u8, b3: u8) -> u32 {
    (b0 as u32) | ((b1 as u32) << 8) | ((b2 as u32) << 16) | ((b3 as u32) << 24)
}

/// The word stored little-endian at byte position `offset`.
pub open spec fn word_at(bytes: Seq<u8>, offset: int) -> u32
    recommends
        0 <= offset,
        offset + 4 <= bytes.len(),
{
    word_from_bytes(bytes[offset], bytes[offset + 1], bytes[offset + 2], bytes[offset + 3])
}

/// Byte `k` (0 = least significant) of the little-endian encoding of `val`.
pub open spec fn word_byte(val: u32, k: u32) -> u8 {
    ((val >> (8 * k)) & 0xFF) as u8
}

/// `bytes` with the four bytes starting at `offset` replaced by the
/// little-endian encoding of `val`.
pub open spec fn store_word(bytes: Seq<u8>, offset: int, val: u32) -> Seq<u8>
    recommends
        0 <= offset,
        offset + 4 <= bytes.len(),
{
    bytes.update(offset, word_byte(val, 0)).update(offset + 1, word_byte(val, 1)).update(
        offset + 2,
        word_byte(val, 2),
    ).update(offset + 3, word_byte(val, 3))
}

/// Round trip: a word written little-endian at `offset` reads back as the
/// same value, through any accessor addressing the same byte range.
pub proof fn lemma_word_round_trip(bytes: Seq<u8>, offset: int, val: u32)
    requires
        0 <= offset,
        offset + 4 <= bytes.len(),
    ensures
        word_at(store_word(bytes, offset, val), offset) == val,
{
    assert((((val >> 0) & 0xFF) as u8 as u32) | ((((val >> 8) & 0xFF) as u8 as u32) << 8) | ((((val
        >> 16) & 0xFF) as u8 as u32) << 16) | ((((val >> 24) & 0xFF) as u8 as u32) << 24)
        == val) by (bit_vector);
}

/// A writable handle over a byte buffer.
///
/// The handle owns a plain byte vector; accessors compute offsets into it
/// and read or write one 32-bit little-endian word per call, after an
/// explicit bounds check. Nothing is shared, so no two views can alias the
/// same bytes mutably.
pub struct Data {
    bytes: Vec<u8>,
}

impl View for Data {
    type V = Seq<u8>;

    closed spec fn view(&self) -> Seq<u8> {
        self.bytes@
    }
}

impl Data {
    /// Wrap a byte vector as a buffer handle.
    pub fn from_u8(bytes: Vec<u8>) -> (r: Data)
        ensures
            r@ == bytes@,
    {
        Data { bytes }
    }

    /// Number of bytes available.
    pub fn len(&self) -> (r: usize)
        ensures
            r == self@.len(),
    {
        self.bytes.len()
    }

    /// Give the bytes back to the caller.
    pub fn into_bytes(self) -> (r: Vec<u8>)
        ensures
            r@ == self@,
    {
        self.bytes
    }

    /// The little-endian word at byte position `offset`, or `None` if the
    /// four bytes do not fit in the buffer.
    pub fn read_word(&self, offset: u64) -> (r: Option<u32>)
        ensures
            r is Some <==> offset + 4 <= self@.len(),
            r matches Some(v) ==> v == word_at(self@, offset as int),
    {
        let len = self.bytes.len() as u64;
        if len < 4 || offset > len - 4 {
            return None;
        }
        let o = offset as usize;
        let b0 = self.bytes[o];
        let b1 = self.bytes[o + 1];
        let b2 = self.bytes[o + 2];
        let b3 = self.bytes[o + 3];
        Some((b0 as u32) | ((b1 as u32) << 8) | ((b2 as u32) << 16) | ((b3 as u32) << 24))
    }

    /// Store `val` little-endian at byte position `offset`. Returns whether
    /// the write happened; a buffer too short for it is left untouched.
    pub fn write_word(&mut self, offset: u64, val: u32) -> (r: bool)
        ensures
            r <==> offset + 4 <= old(self)@.len(),
            r ==> final(self)@ == store_word(old(self)@, offset as int, val),
            !r ==> final(self)@ == old(self)@,
    {
        let len = self.bytes.len() as u64;
        if len < 4 || offset > len - 4 {
            return false;
        }
        let o = offset as usize;
        proof {
            assert(word_byte(val, 0) == ((val >> 0) & 0xFF) as u8 && ((val >> 0) & 0xFF)
                < 256) by (bit_vector);
            assert(word_byte(val, 1) == ((val >> 8) & 0xFF) as u8 && ((val >> 8) & 0xFF)
                < 256) by (bit_vector);
            assert(word_byte(val, 2) == ((val >> 16) & 0xFF) as u8 && ((val >> 16) & 0xFF)
                < 256) by (bit_vector);
            assert(word_byte(val, 3) == ((val >> 24) & 0xFF) as u8 && ((val >> 24) & 0xFF)
                < 256) by (bit_vector);
        }
        self.bytes[o] = ((val >> 0) & 0xFF) as u8;
        self.bytes[o + 1] = ((val >> 8) & 0xFF) as u8;
        self.bytes[o + 2] = ((val >> 16) & 0xFF) as u8;
        self.bytes[o + 3] = ((val >> 24) & 0xFF) as u8;
        true
    }
}

/// The top-level layout facade: binds a record shape to the named-field
/// tables callers supply, producing compiled layouts ready for accessor
/// synthesis.
pub struct DynamicLayout {
    pub shape: Field,
}

impl DynamicLayout {
    pub fn new(shape: Field) -> (r: DynamicLayout)
        ensures
            r.shape == shape,
    {
        DynamicLayout { shape }
    }

    /// Compile a named-field table against the record shape and precompute
    /// the required buffer length.
    ///
    /// Succeeds exactly when the shape is a record and every declared field
    /// is found in the table and compiles against its declared shape.
    pub fn load_layout(&self, table: &LoadStructLayout) -> (r: Result<CompiledLayout, LayoutError>)
        ensures
            r is Ok <==> (self.shape matches Field::Struct { fields } && compiles_fields(
                fields@,
                *table,
            )),
            r matches Ok(c) ==> {
                &&& self.shape matches Field::Struct { fields } && c.root matches
                    FieldLayout::Struct { fields: compiled } && fields_match(
                    fields@,
                    *table,
                    compiled@,
                )
                &&& c.wf()
            },
    {
        let decls = match &self.shape {
            Field::Struct { fields } => fields,
            _ => {
                return Err(LayoutError);
            },
        };
        let compiled = match field::make_struct_layout(decls, table) {
            Ok(compiled) => compiled,
            Err(e) => {
                return Err(e);
            },
        };
        let root = FieldLayout::Struct { fields: compiled };
        let len = required_data_len(&root);
        Ok(CompiledLayout { root, len })
    }
}

/// A compiled record layout together with its precomputed required buffer
/// length. Reusable across any number of buffers.
pub struct CompiledLayout {
    pub root: FieldLayout,
    pub len: u64,
}

impl CompiledLayout {
    /// The stored length is exactly the maximum span end of the layout.
    pub open spec fn wf(self) -> bool {
        self.len == max_span_end(spans_of(self.root))
    }

    /// Fewest bytes a buffer must hold before accessor synthesis succeeds:
    /// the maximum `offset + length` over all the layout's spans.
    pub fn required_data_len(&self) -> (r: u64)
        ensures
            r == self.len,
    {
        self.len
    }

    /// Produce an accessor over `data`, after checking once that the buffer
    /// is long enough. A buffer of exactly `required_data_len` bytes
    /// succeeds; a shorter one fails with both byte counts; nothing else
    /// can fail.
    pub fn make_accessor<'a>(&'a self, data: &Data) -> (r: Result<
        accessor::Accessor<'a>,
        AccessorError,
    >)
        ensures
            r is Ok <==> data@.len() >= self.len,
            r matches Ok(a) ==> {
                &&& *a.layout == self.root
                &&& self.wf() ==> covered(self.root, data@.len() as int)
            },
            r matches Err(e) ==> e == (AccessorError {
                required_data_len: self.len,
                data_len: data@.len() as u64,
            }),
    {
        let data_len = data.len() as u64;
        if data_len < self.len {
            return Err(AccessorError { required_data_len: self.len, data_len });
        }
        proof {
            if self.wf() {
                lemma_max_end_covered(self.root, data@.len() as int);
            }
        }
        Ok(accessor::Accessor { layout: &self.root })
    }
}

} // verus!
