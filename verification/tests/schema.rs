use libcudf_rs::datatype::{
    cudf_schema_compatibility_map, cudf_unload_schema_map, record_batch_column_types, DataType,
    Field, Schema,
};

fn schema(fields: Vec<(&str, DataType, bool)>) -> Schema {
    Schema {
        fields: fields
            .into_iter()
            .map(|(n, t, nullable)| Field::new(n.to_string(), t, nullable))
            .collect(),
    }
}

#[test]
fn test_schema_restores_utf8view() {
    // Input schema uses Utf8 (cuDF's normalised string type).
    // The unload must restore Utf8View so downstream CPU nodes see the
    // type they expect from the parquet schema they read.
    let input = schema(vec![("name", DataType::Utf8, false), ("age", DataType::Int32, false)]);
    let out = cudf_unload_schema_map(&input);
    assert_eq!(out.fields[0].data_type, DataType::Utf8View);
    assert_eq!(out.fields[1].data_type, DataType::Int32);
}

#[test]
fn load_schema_maps_utf8view_to_utf8() {
    let input = schema(vec![
        ("s", DataType::Utf8View, true),
        ("t", DataType::Utf8, false),
        ("d", DataType::Decimal128(10, 2), true),
    ]);
    let out = cudf_schema_compatibility_map(&input);
    assert_eq!(out.fields.len(), 3);
    assert_eq!(out.fields[0].name, "s");
    assert_eq!(out.fields[0].data_type, DataType::Utf8);
    assert!(out.fields[0].nullable);
    assert_eq!(out.fields[1].data_type, DataType::Utf8);
    assert!(!out.fields[1].nullable);
    assert_eq!(out.fields[2].data_type, DataType::Decimal128(10, 2));
}

#[test]
fn load_then_unload_restores_string_views() {
    let input = schema(vec![("s", DataType::Utf8View, true), ("n", DataType::Int64, false)]);
    let round = cudf_unload_schema_map(&cudf_schema_compatibility_map(&input));
    assert_eq!(round.fields[0].data_type, DataType::Utf8View);
    assert_eq!(round.fields[0].name, "s");
    assert_eq!(round.fields[1].data_type, DataType::Int64);
}

#[test]
fn loading_twice_is_loading_once() {
    let input = schema(vec![("s", DataType::Utf8View, true), ("b", DataType::Boolean, true)]);
    let once = cudf_schema_compatibility_map(&input);
    let twice = cudf_schema_compatibility_map(&once);
    for (a, b) in once.fields.iter().zip(twice.fields.iter()) {
        assert_eq!(a.name, b.name);
        assert_eq!(a.data_type, b.data_type);
        assert_eq!(a.nullable, b.nullable);
    }
}

#[test]
fn empty_schema_maps_to_empty() {
    let out = cudf_unload_schema_map(&Schema { fields: vec![] });
    assert!(out.fields.is_empty());
}

#[test]
fn record_batch_relabels_only_gpu_columns_that_differ() {
    let s = schema(vec![
        ("a", DataType::Decimal128(10, 2), true),
        ("b", DataType::Decimal128(10, 2), true),
        ("c", DataType::Int32, true),
    ]);
    let cols = vec![
        (DataType::Decimal128(38, 2), true),
        (DataType::Decimal128(38, 2), false),
        (DataType::Int32, true),
        (DataType::Int64, true),
    ];
    let types = record_batch_column_types(&cols, &s);
    assert_eq!(types, vec![DataType::Decimal128(10, 2), DataType::Decimal128(38, 2), DataType::Int32]);
}
