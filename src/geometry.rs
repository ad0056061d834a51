//! Names of geometry types, as the `GeometryType` and `ST_GeometryType`
//! functions report them.
use vstd::prelude::*;

verus! {

/// The kind of a geometry value.
#[derive(Clone, Copy, Debug, PartialEq, Eq, Structural)]
pub enum GeometryKind {
    Point,
    LineString,
    Polygon,
    MultiPoint,
    MultiLineString,
    MultiPolygon,
    GeometryCollection,
    Rect,
    Line,
    Triangle,
}

/// The coordinate dimensions of a geometry value.
#[derive(Clone, Copy, Debug, PartialEq, Eq, Structural)]
pub enum Dimensions {
    Xy,
    Xyz,
    Xym,
    Xyzm,
    /// Only the number of dimensions is known.
    Unknown(usize),
}

pub open spec fn spec_geometry_type_str(kind: GeometryKind) -> Seq<char> {
    match kind {
        GeometryKind::Point => "POINT"@,
        GeometryKind::LineString | GeometryKind::Line => "LINESTRING"@,
        GeometryKind::Polygon | GeometryKind::Rect | GeometryKind::Triangle => "POLYGON"@,
        GeometryKind::MultiPoint => "MULTIPOINT"@,
        GeometryKind::MultiLineString => "MULTILINESTRING"@,
        GeometryKind::MultiPolygon => "MULTIPOLYGON"@,
        GeometryKind::GeometryCollection => "GEOMETRYCOLLECTION"@,
    }
}

pub open spec fn spec_geometry_type_str_st(kind: GeometryKind) -> Seq<char> {
    match kind {
        GeometryKind::Point => "ST_Point"@,
        GeometryKind::LineString | GeometryKind::Line => "ST_LineString"@,
        GeometryKind::Polygon | GeometryKind::Rect | GeometryKind::Triangle => "ST_Polygon"@,
        GeometryKind::MultiPoint => "ST_MultiPoint"@,
        GeometryKind::MultiLineString => "ST_MultilineString"@,
        GeometryKind::MultiPolygon => "ST_MultiPolygon"@,
        GeometryKind::GeometryCollection => "ST_GeometryCollection"@,
    }
}

pub open spec fn spec_geometry_suffix_str(dims: Dimensions) -> Seq<char> {
    match dims {
        Dimensions::Xyz => "Z"@,
        Dimensions::Xym => "M"@,
        Dimensions::Xyzm => "ZM"@,
        Dimensions::Unknown(n) => if n == 4 {
            "ZM"@
        } else {
            ""@
        },
        Dimensions::Xy => ""@,
    }
}

/// The upper-case type name; a rectangle and a triangle are polygons, a line
/// is a line string.
pub fn geometry_type_str(kind: GeometryKind) -> (r: &'static str)
    ensures
        r@ == spec_geometry_type_str(kind),
{
    match kind {
        GeometryKind::Point => "POINT",
        GeometryKind::LineString | GeometryKind::Line => "LINESTRING",
        GeometryKind::Polygon | GeometryKind::Rect | GeometryKind::Triangle => "POLYGON",
        GeometryKind::MultiPoint => "MULTIPOINT",
        GeometryKind::MultiLineString => "MULTILINESTRING",
        GeometryKind::MultiPolygon => "MULTIPOLYGON",
        GeometryKind::GeometryCollection => "GEOMETRYCOLLECTION",
    }
}

/// The `ST_`-prefixed type name.
pub fn geometry_type_str_st(kind: GeometryKind) -> (r: &'static str)
    ensures
        r@ == spec_geometry_type_str_st(kind),
{
    match kind {
        GeometryKind::Point => "ST_Point",
        GeometryKind::LineString | GeometryKind::Line => "ST_LineString",
        GeometryKind::Polygon | GeometryKind::Rect | GeometryKind::Triangle => "ST_Polygon",
        GeometryKind::MultiPoint => "ST_MultiPoint",
        GeometryKind::MultiLineString => "ST_MultilineString",
        GeometryKind::MultiPolygon => "ST_MultiPolygon",
        GeometryKind::GeometryCollection => "ST_GeometryCollection",
    }
}

/// The suffix that marks the extra dimensions after a type name: `Z`, `M`,
/// `ZM`, or nothing for two dimensions.
pub fn geometry_suffix_str(dims: Dimensions) -> (r: &'static str)
    ensures
        r@ == spec_geometry_suffix_str(dims),
{
    match dims {
        Dimensions::Xyz => "Z",
        Dimensions::Xym => "M",
        Dimensions::Xyzm => "ZM",
        Dimensions::Unknown(n) => if n == 4 {
            "ZM"
        } else {
            ""
        },
        Dimensions::Xy => "",
    }
}

} // verus!
