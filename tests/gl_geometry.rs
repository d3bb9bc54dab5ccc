use gl_geometry::{
    cast_to_u32_array, cast_to_u32_line_array, interleave, to_u32_line_array, Attribute,
    BufferData, GLGeometryData, GeometryError, IndexValues,
};

fn quad() -> Vec<Attribute<f32>> {
    vec![
        Attribute::new(
            "position",
            vec![-0.5, -0.5, 0.0, -0.5, 0.5, 0.0, 0.5, 0.5, 0.0, 0.5, -0.5, 0.0],
            3,
        ),
        Attribute::new(
            "normal",
            vec![0.0, 0.0, 1.0, 0.0, 0.0, 1.0, 0.0, 0.0, 1.0, 0.0, 0.0, 1.0],
            3,
        ),
        Attribute::new("uv", vec![0.0, 0.0, 0.0, 1.0, 1.0, 1.0, 1.0, 0.0], 2),
    ]
}

#[test]
fn interleave_places_each_component_at_stride_and_offset() {
    let attrs = quad();
    let out = interleave(&attrs, 4);
    assert_eq!(out.len(), 4 * 8);
    let offsets = [0usize, 3, 6];
    for v in 0..4 {
        for (i, a) in attrs.iter().enumerate() {
            for k in 0..a.item_size {
                assert_eq!(out[v * 8 + offsets[i] + k], a.values[v * a.item_size + k]);
            }
        }
    }
    assert_eq!(
        &out[8..16],
        &[-0.5f32, 0.5, 0.0, 0.0, 0.0, 1.0, 0.0, 1.0][..]
    );
}

#[test]
fn interleave_integer_values() {
    let attrs = vec![
        Attribute::new("a", vec![1u32, 2, 3, 4], 2),
        Attribute::new("b", vec![10u32, 20], 1),
    ];
    assert_eq!(interleave(&attrs, 2), vec![1, 2, 10, 3, 4, 20]);
}

#[test]
fn interleave_without_attributes_is_empty() {
    let attrs: Vec<Attribute<u8>> = Vec::new();
    assert!(interleave(&attrs, 0).is_empty());
}

#[test]
fn compiled_vertex_buffer_matches_layout() {
    let mut g = GLGeometryData::new(quad(), None).unwrap();
    assert_eq!(g.stride(), 8);
    assert_eq!(g.vertex_count(), 4);
    assert!(g.get_vertex_buffer(false));
    let expected = interleave(&quad(), 4);
    assert_eq!(g.vertex_buffer(), &expected);
}

#[test]
fn offsets_after_compile() {
    let mut g = GLGeometryData::new(quad(), None).unwrap();
    assert_eq!(g.get_offset("position"), None);
    g.get_vertex_buffer(false);
    assert_eq!(g.get_offset("position"), Some(0));
    assert_eq!(g.get_offset("normal"), Some(3));
    assert_eq!(g.get_offset("uv"), Some(6));
    assert_eq!(g.get_offset("color"), None);
}

#[test]
fn cached_buffer_is_kept_unless_forced() {
    let mut g = GLGeometryData::new(quad(), Some(IndexValues::U32(vec![0, 2, 1, 0, 3, 2])))
        .unwrap();
    assert!(g.get_vertex_buffer(false));
    let first = g.vertex_buffer().clone();
    assert!(!g.get_vertex_buffer(false));
    assert_eq!(g.vertex_buffer(), &first);
    assert!(g.get_vertex_buffer(true));
    assert_eq!(g.vertex_buffer(), &first);

    assert!(g.get_index_buffer(false));
    assert!(!g.get_index_buffer(false));
    assert!(g.get_index_buffer(true));
    assert_eq!(g.index_buffer(), &vec![0, 2, 1, 0, 3, 2]);

    assert!(g.get_line_index_buffer(false));
    assert!(!g.get_line_index_buffer(false));
    assert!(g.get_line_index_buffer(true));
}

#[test]
fn line_index_from_two_triangles() {
    let lines = to_u32_line_array(&vec![0, 2, 1, 0, 3, 2]);
    assert_eq!(lines, vec![0, 2, 2, 1, 1, 0, 0, 3, 3, 2, 2, 0]);
    assert_eq!(lines.len(), 12);

    let mut g =
        GLGeometryData::new(quad(), Some(IndexValues::U16(vec![0, 2, 1, 0, 3, 2]))).unwrap();
    g.get_line_index_buffer(false);
    assert_eq!(g.line_index_buffer(), &vec![0, 2, 2, 1, 1, 0, 0, 3, 3, 2, 2, 0]);
}

#[test]
fn line_index_drops_partial_triangle() {
    assert_eq!(to_u32_line_array(&vec![4, 5, 6, 7]), vec![4, 5, 5, 6, 6, 4]);
    assert!(to_u32_line_array(&vec![1, 2]).is_empty());
}

#[test]
fn line_index_casts_first() {
    let v = IndexValues::I8(vec![0, -1, 2]);
    assert_eq!(cast_to_u32_line_array(&v), vec![0, 4294967295, 4294967295, 2, 2, 0]);
}

#[test]
fn missing_index_gives_empty_buffers() {
    let mut g = GLGeometryData::new(quad(), None).unwrap();
    assert!(g.get_index_buffer(false));
    assert!(g.index_buffer().is_empty());
    assert!(g.get_line_index_buffer(false));
    assert!(g.line_index_buffer().is_empty());
}

#[test]
fn empty_index_gives_empty_buffers() {
    let mut g = GLGeometryData::new(quad(), Some(IndexValues::U32(Vec::new()))).unwrap();
    g.get_index_buffer(false);
    g.get_line_index_buffer(false);
    assert!(g.index_buffer().is_empty());
    assert!(g.line_index_buffer().is_empty());
}

#[test]
fn wide_index_wraps_to_u32() {
    assert_eq!(cast_to_u32_array(&IndexValues::I64(vec![4294967296])), vec![0]);
    assert_eq!(cast_to_u32_array(&IndexValues::U64(vec![4294967297])), vec![1]);
}

#[test]
fn index_casts_of_every_integer_kind() {
    assert_eq!(cast_to_u32_array(&IndexValues::U8(vec![255])), vec![255]);
    assert_eq!(cast_to_u32_array(&IndexValues::U16(vec![65535])), vec![65535]);
    assert_eq!(cast_to_u32_array(&IndexValues::U32(vec![7])), vec![7]);
    assert_eq!(cast_to_u32_array(&IndexValues::I8(vec![-1])), vec![4294967295]);
    assert_eq!(cast_to_u32_array(&IndexValues::I16(vec![-2])), vec![4294967294]);
    assert_eq!(cast_to_u32_array(&IndexValues::I32(vec![5, -3])), vec![5, 4294967293]);
    assert_eq!(cast_to_u32_array(&IndexValues::I64(vec![-1])), vec![4294967295]);
}

#[test]
fn zero_item_size_is_malformed() {
    let attrs = vec![Attribute::new("a", vec![1u8, 2], 0)];
    assert_eq!(GLGeometryData::new(attrs, None).err(), Some(GeometryError::Malformed));
}

#[test]
fn unequal_vertex_counts_are_malformed() {
    let attrs = vec![
        Attribute::new("a", vec![1u8, 2, 3, 4], 2),
        Attribute::new("b", vec![1u8, 2, 3], 1),
    ];
    assert_eq!(GLGeometryData::new(attrs, None).err(), Some(GeometryError::Malformed));
}

#[test]
fn ragged_attribute_is_malformed() {
    let attrs = vec![Attribute::new("a", vec![1u8, 2, 3], 2)];
    assert_eq!(GLGeometryData::new(attrs, None).err(), Some(GeometryError::Malformed));
}

#[test]
fn duplicate_names_are_malformed() {
    let attrs = vec![
        Attribute::new("a", vec![1u8, 2], 1),
        Attribute::new("a", vec![3u8, 4], 1),
    ];
    assert_eq!(GLGeometryData::new(attrs, None).err(), Some(GeometryError::Malformed));
}

#[test]
fn oversized_buffer_is_too_large() {
    let attrs = vec![
        Attribute::new("a", vec![(); usize::MAX], 1),
        Attribute::new("b", vec![(); usize::MAX], 1),
    ];
    assert_eq!(GLGeometryData::new(attrs, None).err(), Some(GeometryError::TooLarge));
}

#[test]
fn buffer_data_new_keeps_fields() {
    let b = BufferData::new("normal", 3);
    assert_eq!(b.name, "normal");
    assert_eq!(b.offset, 3);
}
