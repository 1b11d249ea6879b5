//! The layout engine exercised end to end: leaf layouts, record layouts,
//! accessor reads and writes, and span enumeration. Buffers hold 32-bit
//! values little-endian; float values travel as their bit patterns.

use dynamiclayout::accessor::Accessor;
use dynamiclayout::field::get_field_spans;
use dynamiclayout::load::{FieldSpan, LayoutInfo, LoadStructLayout};
use dynamiclayout::matrix_types::matrix;
use dynamiclayout::primitive_types::{scalar, scalar_array, vec2, vec3, vec4};
use dynamiclayout::vector_types::{Vec3, Vec4};
use dynamiclayout::{make_layout, CompiledLayout, Data, DynamicLayout, Field};
use dynamiclayout::field::FieldDecl;

fn bits(x: f32) -> u32 {
    x.to_bits()
}

fn put_f32(buf: &mut Vec<u8>, offset: usize, x: f32) {
    buf[offset..offset + 4].copy_from_slice(&x.to_le_bytes());
}

fn put_i32(buf: &mut Vec<u8>, offset: usize, x: i32) {
    buf[offset..offset + 4].copy_from_slice(&x.to_le_bytes());
}

fn table(entries: Vec<(&str, LayoutInfo)>) -> LoadStructLayout {
    LoadStructLayout::new(entries.into_iter().map(|(n, d)| (n.to_string(), d)).collect())
}

fn decls(entries: Vec<(&str, Field)>) -> Vec<FieldDecl> {
    entries.into_iter().map(|(n, k)| FieldDecl::new(n.to_string(), k)).collect()
}

#[test]
fn primitive_layout() {
    let layout_info = LayoutInfo::PrimitiveField(0);
    let layout = make_layout(&scalar(), &layout_info).unwrap();

    let spans = get_field_spans(&layout);
    let span = &spans[0];
    assert_eq!(span.offset, 0);
    assert_eq!(span.length, 4);

    let mut buf = vec![0u8; 4];
    put_f32(&mut buf, 0, 1.23);
    let data = Data::from_u8(buf);
    let accessor = Accessor { layout: &layout };
    assert_eq!(accessor.read_word(&data, 0), Some(bits(1.23)));
}

#[test]
fn primitive_array_layout() {
    let layout_info = LayoutInfo::ArrayField(0, 4);
    let layout = make_layout(&scalar_array(3), &layout_info).unwrap();

    let spans = get_field_spans(&layout);
    let expected = vec![FieldSpan::new(0, 4), FieldSpan::new(4, 4), FieldSpan::new(8, 4)];
    assert!(spans == expected);

    let values = [1.23f32, 34.5f32, 5.67f32];
    let mut buf = vec![0u8; 12];
    for (i, v) in values.iter().enumerate() {
        put_f32(&mut buf, 4 * i, *v);
    }
    let data = Data::from_u8(buf);
    let accessor = Accessor { layout: &layout };
    assert_eq!(accessor.read_array_word(&data, 0, 0), Some(bits(1.23)));
    assert_eq!(accessor.read_array_word(&data, 1, 0), Some(bits(34.5)));
    assert_eq!(accessor.read_array_word(&data, 2, 0), Some(bits(5.67)));
}

const FOO_SIZE: usize = 124;

fn foo_shape() -> Field {
    Field::Struct {
        fields: decls(vec![
            ("three", vec3()),
            ("one", scalar()),
            ("four", vec4()),
            ("two", vec2()),
            ("compound", bar_shape()),
        ]),
    }
}

fn bar_shape() -> Field {
    Field::Struct {
        fields: decls(vec![("one", scalar()), ("four", vec4()), ("matrix", matrix(4, 4))]),
    }
}

fn bar_fields() -> LayoutInfo {
    LayoutInfo::StructField(table(vec![
        ("one", LayoutInfo::PrimitiveField(40)),
        ("four", LayoutInfo::PrimitiveField(44)),
        ("matrix", LayoutInfo::ArrayField(60, 16)),
    ]))
}

fn foo_fields() -> LoadStructLayout {
    table(vec![
        ("three", LayoutInfo::PrimitiveField(0)),
        ("one", LayoutInfo::PrimitiveField(12)),
        ("four", LayoutInfo::PrimitiveField(16)),
        ("two", LayoutInfo::PrimitiveField(32)),
        ("compound", bar_fields()),
    ])
}

fn make_foo_layout() -> CompiledLayout {
    DynamicLayout::new(foo_shape()).load_layout(&foo_fields()).unwrap()
}

/// The bytes of a `Foo` record laid out as `foo_fields` describes.
fn new_foo_bytes() -> Vec<u8> {
    let mut buf = vec![0u8; FOO_SIZE];
    put_f32(&mut buf, 0, 1.0);
    put_f32(&mut buf, 4, 2.0);
    put_f32(&mut buf, 8, 3.0);
    put_f32(&mut buf, 12, 4.0);
    put_f32(&mut buf, 16, 5.0);
    put_f32(&mut buf, 20, 6.0);
    put_f32(&mut buf, 24, 7.0);
    put_f32(&mut buf, 28, 8.0);
    put_f32(&mut buf, 32, 9.0);
    put_f32(&mut buf, 36, 10.0);
    put_f32(&mut buf, 40, 11.0);
    put_f32(&mut buf, 44, 12.0);
    put_f32(&mut buf, 48, 13.0);
    put_f32(&mut buf, 52, 14.0);
    put_f32(&mut buf, 56, 15.0);
    let matrix_values = [
        [101.0f32, 102.0, 103.0, 104.0],
        [105.0, 106.0, 107.0, 108.0],
        [109.0, 110.0, 111.0, 112.0],
        [113.0, 114.0, 115.0, 116.0],
    ];
    for (c, column) in matrix_values.iter().enumerate() {
        for (r, v) in column.iter().enumerate() {
            put_f32(&mut buf, 60 + 16 * c + 4 * r, *v);
        }
    }
    buf
}

#[test]
fn one_to_one_mapping() {
    let layout = make_foo_layout();
    let mut data = Data::from_u8(new_foo_bytes());

    {
        let acc = layout.make_accessor(&data).unwrap();
        let three = acc.field(&"three".to_string()).unwrap();
        assert_eq!(three.read_word(&data, 0), Some(bits(1.0)));
        assert_eq!(three.read_word(&data, 1), Some(bits(2.0)));
        assert_eq!(three.read_word(&data, 2), Some(bits(3.0)));

        let one = acc.field(&"one".to_string()).unwrap();
        assert_eq!(one.read_word(&data, 0), Some(bits(4.0)));

        let four = acc.field(&"four".to_string()).unwrap();
        assert_eq!(four.read_word(&data, 0), Some(bits(5.0)));
        assert_eq!(four.read_word(&data, 1), Some(bits(6.0)));
        assert_eq!(four.read_word(&data, 2), Some(bits(7.0)));
        assert_eq!(four.read_word(&data, 3), Some(bits(8.0)));

        let two = acc.field(&"two".to_string()).unwrap();
        assert_eq!(two.read_word(&data, 0), Some(bits(9.0)));
        assert_eq!(two.read_word(&data, 1), Some(bits(10.0)));

        let compound = acc.field(&"compound".to_string()).unwrap();
        let c_one = compound.field(&"one".to_string()).unwrap();
        assert_eq!(c_one.read_word(&data, 0), Some(bits(11.0)));
        let c_four = compound.field(&"four".to_string()).unwrap();
        assert_eq!(c_four.read_word(&data, 0), Some(bits(12.0)));
        assert_eq!(c_four.read_word(&data, 1), Some(bits(13.0)));
        assert_eq!(c_four.read_word(&data, 2), Some(bits(14.0)));
        assert_eq!(c_four.read_word(&data, 3), Some(bits(15.0)));

        let matrix = compound.field(&"matrix".to_string()).unwrap();
        for c in 0..4 {
            for r in 0..4 {
                let expected = 101.0 + (4 * c + r) as f32;
                assert_eq!(matrix.read_matrix_word(&data, c, r), Some(bits(expected)));
            }
        }
    }

    {
        let acc = layout.make_accessor(&data).unwrap();
        let three = acc.field(&"three".to_string()).unwrap();
        assert!(three.write_word(&mut data, 1, bits(999.0)));
        let two = acc.field(&"two".to_string()).unwrap();
        assert!(two.write_word(&mut data, 0, bits(888.0)));
        let one = acc.field(&"one".to_string()).unwrap();
        assert!(one.write_word(&mut data, 0, bits(777.0)));
    }

    let bytes = data.into_bytes();
    assert_eq!(f32::from_le_bytes(bytes[4..8].try_into().unwrap()), 999.0);
    assert_eq!(f32::from_le_bytes(bytes[32..36].try_into().unwrap()), 888.0);
    assert_eq!(f32::from_le_bytes(bytes[12..16].try_into().unwrap()), 777.0);
}

#[test]
fn vector_indexing() {
    let vec = Vec4::new(bits(1.0), bits(2.0), bits(3.0), bits(4.0));

    assert_eq!(vec.get(0), Some(bits(1.0)));
    assert_eq!(vec.get(1), Some(bits(2.0)));
    assert_eq!(vec.get(2), Some(bits(3.0)));
    assert_eq!(vec.get(3), Some(bits(4.0)));
}

#[test]
fn vector_out_of_range() {
    let vec = Vec3::new(bits(1.0), bits(2.0), bits(3.0));
    assert_eq!(vec.get(4), None);
}

fn matrix_layout() -> CompiledLayout {
    let shape = Field::Struct { fields: decls(vec![("matrix", matrix(4, 4))]) };
    let layout_table = table(vec![("matrix", LayoutInfo::ArrayField(0, 16))]);
    DynamicLayout::new(shape).load_layout(&layout_table).unwrap()
}

#[test]
fn dynamic_matrix_indexing() {
    let layout = matrix_layout();
    let mut data = Data::from_u8(vec![0u8; 64]);
    let acc = layout.make_accessor(&data).unwrap();
    let m = acc.field(&"matrix".to_string()).unwrap();
    assert_eq!(m.read_matrix_word(&data, 0, 0), Some(bits(0.0)));
    assert_eq!(m.read_matrix_word(&data, 3, 3), Some(bits(0.0)));
    assert!(m.write_matrix_word(&mut data, 2, 2, bits(5.0)));
}

#[test]
fn field_spans() {
    let layout = make_foo_layout();
    let spans = get_field_spans(&layout.root);
    println!("{:?}", spans);
    let min = spans.iter().min_by_key(|span| span.offset).unwrap();
    assert_eq!(min.offset, 0);
    let max = spans.iter().max_by_key(|span| span.offset).unwrap();
    assert_eq!((max.offset + max.length) as usize, FOO_SIZE);
}

fn primitive_array_layout_compiled() -> CompiledLayout {
    let shape = Field::Struct {
        fields: decls(vec![("first", scalar()), ("array", scalar_array(8)), ("last", scalar())]),
    };
    let layout_table = table(vec![
        ("first", LayoutInfo::PrimitiveField(0)),
        ("array", LayoutInfo::ArrayField(4, 4)),
        ("last", LayoutInfo::PrimitiveField(36)),
    ]);
    DynamicLayout::new(shape).load_layout(&layout_table).unwrap()
}

#[test]
fn primitive_array() {
    let layout = primitive_array_layout_compiled();
    let mut buf = vec![0u8; 40];
    put_i32(&mut buf, 0, 11);
    for (i, v) in [1i32, 2, 3, 4, 5, 6, 7, 8].iter().enumerate() {
        put_i32(&mut buf, 4 + 4 * i, *v);
    }
    put_i32(&mut buf, 36, 99);
    let mut data = Data::from_u8(buf);
    let acc = layout.make_accessor(&data).unwrap();

    let first = acc.field(&"first".to_string()).unwrap();
    assert_eq!(first.read_word(&data, 0), Some(11));
    let array = acc.field(&"array".to_string()).unwrap();
    assert_eq!(array.read_array_word(&data, 0, 0), Some(1));
    assert_eq!(array.read_array_word(&data, 1, 0), Some(2));
    assert_eq!(array.read_array_word(&data, 2, 0), Some(3));
    assert_eq!(array.read_array_word(&data, 3, 0), Some(4));
    assert_eq!(array.read_array_word(&data, 4, 0), Some(5));
    assert_eq!(array.read_array_word(&data, 5, 0), Some(6));
    assert_eq!(array.read_array_word(&data, 6, 0), Some(7));
    assert_eq!(array.read_array_word(&data, 7, 0), Some(8));
    let last = acc.field(&"last".to_string()).unwrap();
    assert_eq!(last.read_word(&data, 0), Some(99));

    assert!(array.write_array_word(&mut data, 3, 0, 15));
    assert_eq!(array.read_array_word(&data, 3, 0), Some(15));
}

fn matrix_array_layout_compiled() -> CompiledLayout {
    let shape = Field::Struct { fields: decls(vec![("array", dynamiclayout::matrix_types::matrix_array(2, 3, 2))]) };
    // The matrices in the array are interleaved.
    let layout_table = table(vec![("array", LayoutInfo::MatrixArrayField(0, 12, 24))]);
    DynamicLayout::new(shape).load_layout(&layout_table).unwrap()
}

#[test]
fn matrix_array() {
    let layout = matrix_array_layout_compiled();
    let rows = [
        [111.0f32, 112.0, 113.0],
        [211.0, 212.0, 213.0],
        [121.0, 122.0, 123.0],
        [221.0, 222.0, 223.0],
    ];
    let mut buf = vec![0u8; 48];
    for (i, row) in rows.iter().enumerate() {
        for (j, v) in row.iter().enumerate() {
            put_f32(&mut buf, 12 * i + 4 * j, *v);
        }
    }
    let data = Data::from_u8(buf);
    let acc = layout.make_accessor(&data).unwrap();
    let array = acc.field(&"array".to_string()).unwrap();

    assert_eq!(array.read_matrix_array_word(&data, 0, 0, 0), Some(bits(111.0)));
    assert_eq!(array.read_matrix_array_word(&data, 0, 0, 1), Some(bits(112.0)));
    assert_eq!(array.read_matrix_array_word(&data, 0, 0, 2), Some(bits(113.0)));
    assert_eq!(array.read_matrix_array_word(&data, 0, 1, 0), Some(bits(121.0)));
    assert_eq!(array.read_matrix_array_word(&data, 0, 1, 1), Some(bits(122.0)));
    assert_eq!(array.read_matrix_array_word(&data, 0, 1, 2), Some(bits(123.0)));

    assert_eq!(array.read_matrix_array_word(&data, 1, 0, 0), Some(bits(211.0)));
    assert_eq!(array.read_matrix_array_word(&data, 1, 0, 1), Some(bits(212.0)));
    assert_eq!(array.read_matrix_array_word(&data, 1, 0, 2), Some(bits(213.0)));
    assert_eq!(array.read_matrix_array_word(&data, 1, 1, 0), Some(bits(221.0)));
    assert_eq!(array.read_matrix_array_word(&data, 1, 1, 1), Some(bits(222.0)));
    assert_eq!(array.read_matrix_array_word(&data, 1, 1, 2), Some(bits(223.0)));
}

fn struct_array_layout_compiled() -> CompiledLayout {
    let shape = Field::Struct {
        fields: decls(vec![(
            "array",
            Field::StructArray {
                fields: decls(vec![("one", scalar()), ("four", vec4())]),
                arity: 2,
            },
        )]),
    };
    let qux_fields_0 = table(vec![
        ("one", LayoutInfo::PrimitiveField(0)),
        ("four", LayoutInfo::PrimitiveField(4)),
    ]);
    let qux_fields_1 = table(vec![
        ("one", LayoutInfo::PrimitiveField(20)),
        ("four", LayoutInfo::PrimitiveField(24)),
    ]);
    let layout_table = table(vec![(
        "array",
        LayoutInfo::StructArrayField(vec![qux_fields_0, qux_fields_1]),
    )]);
    DynamicLayout::new(shape).load_layout(&layout_table).unwrap()
}

#[test]
fn struct_array() {
    let layout = struct_array_layout_compiled();
    let mut buf = vec![0u8; 40];
    put_f32(&mut buf, 0, 0.0);
    put_f32(&mut buf, 4, 0.0);
    put_f32(&mut buf, 8, 1.0);
    put_f32(&mut buf, 12, 2.0);
    put_f32(&mut buf, 16, 3.0);
    put_f32(&mut buf, 20, 1.0);
    put_f32(&mut buf, 24, 10.0);
    put_f32(&mut buf, 28, 11.0);
    put_f32(&mut buf, 32, 12.0);
    put_f32(&mut buf, 36, 13.0);
    let data = Data::from_u8(buf);
    let acc = layout.make_accessor(&data).unwrap();
    let array = acc.field(&"array".to_string()).unwrap();

    let qux0 = array.index(0).unwrap();
    let qux1 = array.index(1).unwrap();
    assert_eq!(qux0.field(&"one".to_string()).unwrap().read_word(&data, 0), Some(bits(0.0)));
    assert_eq!(qux1.field(&"one".to_string()).unwrap().read_word(&data, 0), Some(bits(1.0)));
    let four0 = qux0.field(&"four".to_string()).unwrap();
    assert_eq!(four0.read_word(&data, 0), Some(bits(0.0)));
    assert_eq!(four0.read_word(&data, 1), Some(bits(1.0)));
    assert_eq!(four0.read_word(&data, 2), Some(bits(2.0)));
    assert_eq!(four0.read_word(&data, 3), Some(bits(3.0)));
    let four1 = qux1.field(&"four".to_string()).unwrap();
    assert_eq!(four1.read_word(&data, 0), Some(bits(10.0)));
    assert_eq!(four1.read_word(&data, 1), Some(bits(11.0)));
    assert_eq!(four1.read_word(&data, 2), Some(bits(12.0)));
    assert_eq!(four1.read_word(&data, 3), Some(bits(13.0)));
}
