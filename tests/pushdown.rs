use geodatafusion::bbox::BoundingBox;
use geodatafusion::geometry::{geometry_suffix_str, geometry_type_str, geometry_type_str_st, Dimensions, GeometryKind};
use geodatafusion::flatgeobuf::{FlatGeobufOpener, FlatGeobufSource, PushedDown, Selection, DEFAULT_BATCH_SIZE};
use geodatafusion::predicate::{eq_ignore_ascii_case, extract_bbox, is_intersects_name, ConstantArgument, FilterExpr, PlanError};
use geodatafusion::projection::Projection;

fn bb(min_x: f64, min_y: f64, max_x: f64, max_y: f64) -> BoundingBox {
    BoundingBox::from_f64_bits(min_x.to_bits(), min_y.to_bits(), max_x.to_bits(), max_y.to_bits())
        .unwrap()
}

fn call(name: &str, arg_count: usize, first_is_geometry: bool, second: Option<ConstantArgument>) -> FilterExpr {
    FilterExpr::ScalarCall {
        name: name.to_string(),
        arg_count,
        first_arg_is_geometry_column: first_is_geometry,
        second_arg: second,
    }
}

fn intersects_box(b: BoundingBox) -> FilterExpr {
    call("st_intersects", 2, true, Some(ConstantArgument::Bounds(b)))
}

#[test]
fn ascii_case_insensitive_names() {
    assert!(eq_ignore_ascii_case("St_InterSECTS", "st_intersects"));
    assert!(!eq_ignore_ascii_case("st_intersect", "st_intersects"));
    assert!(!eq_ignore_ascii_case("st_contains", "st_intersects"));
    assert!(is_intersects_name("ST_INTERSECTS"));
    assert!(!is_intersects_name("ST_WITHIN"));
    assert!(!is_intersects_name(""));
}

#[test]
fn recognizes_intersects_with_constant_box() {
    let b = bb(0.0, 0.0, 10.0, 10.0);
    let e = call("ST_Intersects", 2, true, Some(ConstantArgument::Bounds(b)));
    assert_eq!(extract_bbox(&e), Ok(Some(b)));
}

#[test]
fn other_shapes_are_not_applicable() {
    let b = bb(0.0, 0.0, 10.0, 10.0);
    let cases = vec![
        call("st_contains", 2, true, Some(ConstantArgument::Bounds(b))),
        call("st_intersects", 3, true, Some(ConstantArgument::Bounds(b))),
        call("st_intersects", 1, true, None),
        call("st_intersects", 2, false, Some(ConstantArgument::Bounds(b))),
        call("st_intersects", 2, true, None),
        call("st_intersects", 2, true, Some(ConstantArgument::RowDependent)),
        call("st_intersects", 2, true, Some(ConstantArgument::NotGeometry)),
        call("st_intersects", 2, true, Some(ConstantArgument::Null)),
        FilterExpr::Other,
    ];
    for e in cases.iter() {
        assert_eq!(extract_bbox(e), Ok(None));
    }
}

#[test]
fn malformed_constant_is_a_planning_error() {
    let e = call("st_intersects", 2, true, Some(ConstantArgument::EvalError("bad literal".to_string())));
    assert_eq!(extract_bbox(&e), Err(PlanError::Evaluation("bad literal".to_string())));
    let e = call("st_intersects", 2, true, Some(ConstantArgument::BoundsError("no bounds".to_string())));
    assert_eq!(extract_bbox(&e), Err(PlanError::Bounds("no bounds".to_string())));
    let e = call("st_touches", 2, true, Some(ConstantArgument::EvalError("bad literal".to_string())));
    assert_eq!(extract_bbox(&e), Ok(None));
}

#[test]
fn pushdown_prunes_features_outside_box() {
    let source = FlatGeobufSource::new(3);
    let result = source.try_pushdown_filters(&vec![intersects_box(bb(0.0, 0.0, 10.0, 10.0))]).unwrap();
    assert_eq!(result.pushed, vec![PushedDown::Yes]);
    let updated = result.updated.unwrap();
    let plan = updated.create_file_opener().plan();
    let features = [bb(20.0, 20.0, 21.0, 21.0), bb(1.0, 1.0, 2.0, 2.0)];
    let kept: Vec<usize> = (0..features.len()).filter(|i| plan.selection.admits(&features[*i])).collect();
    assert_eq!(kept, vec![1]);
}

#[test]
fn no_box_selects_every_feature() {
    let source = FlatGeobufSource::new(2);
    let result = source.try_pushdown_filters(&vec![FilterExpr::Other]).unwrap();
    assert_eq!(result.pushed, vec![PushedDown::No]);
    assert!(result.updated.is_none());
    let plan = source.create_file_opener().plan();
    assert_eq!(plan.selection, Selection::All);
    let features = [bb(20.0, 20.0, 21.0, 21.0), bb(1.0, 1.0, 2.0, 2.0), bb(-1e9, -1e9, 1e9, 1e9)];
    assert!(features.iter().all(|f| plan.selection.admits(f)));
}

#[test]
fn second_spatial_filter_is_left_to_engine() {
    let source = FlatGeobufSource::new(2);
    let first = source.try_pushdown_filters(&vec![intersects_box(bb(0.0, 0.0, 10.0, 10.0))]).unwrap();
    let with_box = first.updated.unwrap();
    let second = with_box.try_pushdown_filters(&vec![intersects_box(bb(5.0, 5.0, 6.0, 6.0))]).unwrap();
    assert_eq!(second.pushed, vec![PushedDown::No]);
    let kept = second.updated.unwrap();
    assert_eq!(kept.bbox, Some(bb(0.0, 0.0, 10.0, 10.0)));
}

#[test]
fn first_spatial_filter_in_one_call_wins() {
    let source = FlatGeobufSource::new(2);
    let filters = vec![
        FilterExpr::Other,
        intersects_box(bb(0.0, 0.0, 10.0, 10.0)),
        intersects_box(bb(5.0, 5.0, 6.0, 6.0)),
    ];
    let result = source.try_pushdown_filters(&filters).unwrap();
    assert_eq!(result.pushed, vec![PushedDown::No, PushedDown::Yes, PushedDown::No]);
    assert_eq!(result.updated.unwrap().bbox, Some(bb(0.0, 0.0, 10.0, 10.0)));
    assert_eq!(source.bbox, None);
}

#[test]
fn pushdown_error_aborts_planning() {
    let source = FlatGeobufSource::new(2);
    let filters = vec![
        call("st_intersects", 2, true, Some(ConstantArgument::EvalError("boom".to_string()))),
        intersects_box(bb(0.0, 0.0, 1.0, 1.0)),
    ];
    assert!(matches!(source.try_pushdown_filters(&filters), Err(PlanError::Evaluation(_))));
}

#[test]
fn projection_pushdown_twice_reads_union() {
    let source = FlatGeobufSource::new(5);
    assert_eq!(source.read_columns(), vec![0, 1, 2, 3, 4]);
    let first = source.try_pushdown_projection(&Projection { columns: vec![0, 2] }).unwrap();
    assert_eq!(first.read_columns(), vec![0, 2]);
    let second = first.try_pushdown_projection(&Projection { columns: vec![4, 1] }).unwrap();
    assert_eq!(second.projection().as_ref().unwrap().columns, vec![0, 2, 4, 1]);
    assert_eq!(second.read_columns(), vec![0, 2, 4, 1]);
    let plan = FlatGeobufOpener::new(second).plan();
    assert_eq!(plan.columns, vec![0, 2, 4, 1]);
}

#[test]
fn projection_merge_keeps_each_column_once() {
    let a = Projection { columns: vec![3, 1] };
    let b = Projection { columns: vec![1, 0, 3, 0] };
    assert_eq!(a.try_merge(&b, 4).unwrap().columns, vec![3, 1, 0]);
    let all = Projection::all_columns(3);
    assert_eq!(all.columns, vec![0, 1, 2]);
    assert_eq!(all.try_merge(&b, 4).unwrap().columns, vec![0, 1, 2, 3]);
}

#[test]
fn projection_merge_rejects_missing_column() {
    let a = Projection { columns: vec![0, 1] };
    let b = Projection { columns: vec![2, 7, 9] };
    assert_eq!(a.try_merge(&b, 3).unwrap_err(), PlanError::ColumnOutOfRange { index: 7, n_columns: 3 });
    let source = FlatGeobufSource::new(2);
    assert_eq!(
        source.try_pushdown_projection(&Projection { columns: vec![2] }).unwrap_err(),
        PlanError::ColumnOutOfRange { index: 2, n_columns: 2 }
    );
}

#[test]
fn batch_size_defaults_and_overrides() {
    let source = FlatGeobufSource::new(1);
    assert_eq!(source.create_file_opener().plan().batch_size, DEFAULT_BATCH_SIZE);
    assert_eq!(DEFAULT_BATCH_SIZE, 1024);
    let sized = source.with_batch_size(10);
    assert_eq!(sized.create_file_opener().plan().batch_size, 10);
    assert_eq!(source.batch_size, None);
    assert_eq!(source.file_type(), "flatgeobuf");
    assert!(source.supports_repartitioning());
}

#[test]
fn geometry_type_names() {
    assert_eq!(geometry_type_str(GeometryKind::LineString), "LINESTRING");
    assert_eq!(geometry_type_str_st(GeometryKind::LineString), "ST_LineString");
    assert_eq!(geometry_type_str(GeometryKind::Rect), "POLYGON");
    assert_eq!(geometry_type_str(GeometryKind::Line), "LINESTRING");
    assert_eq!(geometry_type_str_st(GeometryKind::Triangle), "ST_Polygon");
    assert_eq!(geometry_type_str_st(GeometryKind::MultiLineString), "ST_MultilineString");
    assert_eq!(geometry_suffix_str(Dimensions::Xy), "");
    assert_eq!(geometry_suffix_str(Dimensions::Xyz), "Z");
    assert_eq!(geometry_suffix_str(Dimensions::Xym), "M");
    assert_eq!(geometry_suffix_str(Dimensions::Xyzm), "ZM");
    assert_eq!(geometry_suffix_str(Dimensions::Unknown(4)), "ZM");
    assert_eq!(geometry_suffix_str(Dimensions::Unknown(3)), "");
}

#[test]
fn test_geometry_type() {
    // a LINESTRING(77.29 29.07, 77.42 29.26, 77.27 29.31, 77.29 29.07) in two dimensions
    let name = format!("{}{}", geometry_type_str(GeometryKind::LineString), geometry_suffix_str(Dimensions::Xy));
    assert_eq!(name, "LINESTRING");
}

#[test]
fn test_st_geometry_type() {
    assert_eq!(geometry_type_str_st(GeometryKind::LineString), "ST_LineString");
}

#[test]
fn empty_inputs() {
    let source = FlatGeobufSource::new(0);
    assert!(source.projection().is_none());
    assert!(source.read_columns().is_empty());
    let result = source.try_pushdown_filters(&vec![]).unwrap();
    assert!(result.pushed.is_empty());
    assert!(result.updated.is_none());
    let merged = source.try_pushdown_projection(&Projection { columns: vec![] }).unwrap();
    assert!(merged.projection.as_ref().unwrap().columns.is_empty());
    assert!(FlatGeobufOpener::new(merged).plan().columns.is_empty());
}

#[test]
fn first_projection_pushdown_narrows_fresh_scan() {
    let source = FlatGeobufSource::new(3);
    let first = source.try_pushdown_projection(&Projection { columns: vec![0] }).unwrap();
    let second = first.try_pushdown_projection(&Projection { columns: vec![1] }).unwrap();
    assert_eq!(second.read_columns(), vec![0, 1]);
    assert_eq!(FlatGeobufOpener::new(second).plan().columns, vec![0, 1]);
    let repeated = source.try_pushdown_projection(&Projection { columns: vec![2, 2, 0] }).unwrap();
    assert_eq!(repeated.read_columns(), vec![2, 0]);
}

#[test]
fn output_positions_map_to_file_columns() {
    let source = FlatGeobufSource::new(4);
    assert_eq!(source.output_columns(&vec![3, 1]), Some(vec![3, 1]));
    let projected = source.try_pushdown_projection(&Projection { columns: vec![2, 0] }).unwrap();
    assert_eq!(projected.output_columns(&vec![1, 0]), Some(vec![0, 2]));
    assert_eq!(projected.output_columns(&vec![2]), None);
}

#[test]
fn ill_formed_constant_box_is_not_pushed() {
    let inverted = BoundingBox { min_x: 10, min_y: 0, max_x: 0, max_y: 10 };
    assert_eq!(extract_bbox(&intersects_box(inverted)), Ok(None));
    let infinite = BoundingBox {
        min_x: geodatafusion::ordinate::ordinate_from_bits(f64::NEG_INFINITY.to_bits()),
        min_y: 0,
        max_x: 0,
        max_y: 0,
    };
    assert_eq!(extract_bbox(&intersects_box(infinite)), Ok(None));
    let source = FlatGeobufSource::new(1);
    let result = source.try_pushdown_filters(&vec![intersects_box(inverted), intersects_box(bb(0.0, 0.0, 1.0, 1.0))]).unwrap();
    assert_eq!(result.pushed, vec![PushedDown::No, PushedDown::Yes]);
    assert_eq!(result.updated.unwrap().bbox, Some(bb(0.0, 0.0, 1.0, 1.0)));
}
