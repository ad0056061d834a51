//! Recognition of a spatial-intersects filter against a constant geometry,
//! whose bounding box can then be pushed down to the scan.
use vstd::prelude::*;
use vstd::string::*;

use crate::bbox::BoundingBox;

verus! {

/// The name of the spatial-intersects function, in lower case.
pub open spec fn intersects_name() -> Seq<char> {
    seq!['s', 't', '_', 'i', 'n', 't', 'e', 'r', 's', 'e', 'c', 't', 's']
}

/// The code of `c` with ASCII upper-case letters mapped to lower case.
pub open spec fn ascii_lower_code(c: char) -> u32 {
    if 'A' <= c && c <= 'Z' {
        (c as u32 + 32) as u32
    } else {
        c as u32
    }
}

/// The two strings are equal up to the case of ASCII letters.
pub open spec fn spec_eq_ignore_ascii_case(a: Seq<char>, b: Seq<char>) -> bool {
    &&& a.len() == b.len()
    &&& forall|i: int| 0 <= i < a.len() ==> ascii_lower_code(a[i]) == ascii_lower_code(b[i])
}

/// Whether the two strings are equal up to the case of ASCII letters.
pub fn eq_ignore_ascii_case(a: &str, b: &str) -> (r: bool)
    ensures
        r == spec_eq_ignore_ascii_case(a@, b@),
{
    let n = a.unicode_len();
    if n != b.unicode_len() {
        return false;
    }
    let mut i: usize = 0;
    while i < n
        invariant
            n == a@.len(),
            n == b@.len(),
            i <= n,
            forall|j: int| 0 <= j < i ==> ascii_lower_code(a@[j]) == ascii_lower_code(b@[j]),
        decreases n - i,
    {
        let ca = a.get_char(i);
        let cb = b.get_char(i);
        let la: u32 = if 'A' <= ca && ca <= 'Z' {
            ca as u32 + 32
        } else {
            ca as u32
        };
        let lb: u32 = if 'A' <= cb && cb <= 'Z' {
            cb as u32 + 32
        } else {
            cb as u32
        };
        if la != lb {
            return false;
        }
        i = i + 1;
    }
    true
}

/// Whether `name` names the spatial-intersects function, in any ASCII case.
pub fn is_intersects_name(name: &str) -> (r: bool)
    ensures
        r == spec_eq_ignore_ascii_case(name@, intersects_name()),
{
    let canonical = "st_intersects";
    proof {
        reveal_strlit("st_intersects");
        assert(canonical@ =~= intersects_name());
    }
    eq_ignore_ascii_case(name, canonical)
}

/// What evaluating the candidate box argument with no input rows gave.
#[derive(Debug)]
pub enum ConstantArgument {
    /// The argument reads per-row data, so it has no value without rows.
    RowDependent,
    /// The argument is a constant whose evaluation failed.
    EvalError(String),
    /// The value could not be read as a geometry column.
    NotGeometry,
    /// The value is a null geometry.
    Null,
    /// The value is a geometry whose bounds could not be computed.
    BoundsError(String),
    /// The value is a geometry with these total bounds, as the caller found them.
    Bounds(BoundingBox),
}

/// A filter expression as the recognizer sees it.
#[derive(Debug)]
pub enum FilterExpr {
    /// A call of a scalar function.
    ScalarCall {
        /// The function's name.
        name: String,
        /// How many arguments the call has.
        arg_count: usize,
        /// The first argument is a plain reference to the scanned geometry column.
        first_arg_is_geometry_column: bool,
        /// The outcome of evaluating the second argument with no input rows;
        /// `None` when it was not evaluated.
        second_arg: Option<ConstantArgument>,
    },
    /// Any other expression.
    Other,
}

/// A recoverable failure while planning a scan.
#[derive(Debug, PartialEq, Eq)]
pub enum PlanError {
    /// A constant argument of a recognized filter failed to evaluate.
    Evaluation(String),
    /// The bounds of a constant geometry could not be computed.
    Bounds(String),
    /// A projection names a column that the schema does not have.
    ColumnOutOfRange { index: usize, n_columns: usize },
}

/// The expression has the recognized shape: a two-argument call of the
/// spatial-intersects function on the scanned geometry column.
pub open spec fn is_intersects_call(e: FilterExpr) -> bool {
    match e {
        FilterExpr::ScalarCall { name, arg_count, first_arg_is_geometry_column, .. } => {
            &&& spec_eq_ignore_ascii_case(name@, intersects_name())
            &&& arg_count == 2
            &&& first_arg_is_geometry_column
        },
        FilterExpr::Other => false,
    }
}

/// The box pushed down for a filter: `Ok(None)` when the filter is not
/// applicable, an error when its constant argument is malformed. Only a
/// finite box whose minima do not exceed its maxima is pushed down; any other
/// box (an empty or inverted one, or one with infinite or NaN bounds) would
/// prune rows that pass the filter, so it leaves the filter to the engine.
pub open spec fn spec_extract_bbox(e: FilterExpr) -> Result<Option<BoundingBox>, PlanError> {
    if !is_intersects_call(e) {
        Ok(None)
    } else {
        match e->second_arg {
            Some(ConstantArgument::Bounds(b)) => if b.wf() {
                Ok(Some(b))
            } else {
                Ok(None)
            },
            Some(ConstantArgument::EvalError(m)) => Err(PlanError::Evaluation(m)),
            Some(ConstantArgument::BoundsError(m)) => Err(PlanError::Bounds(m)),
            _ => Ok(None),
        }
    }
}

/// Whether the call `name(first, ...)` with `arg_count` arguments has the
/// recognized shape.
pub fn is_intersects_shape(name: &str, arg_count: usize, first_arg_is_geometry_column: bool) -> (r:
    bool)
    ensures
        r == (spec_eq_ignore_ascii_case(name@, intersects_name()) && arg_count == 2
            && first_arg_is_geometry_column),
{
    arg_count == 2 && first_arg_is_geometry_column && is_intersects_name(name)
}

/// The bounding box that a filter lets the scan push down, if any.
pub fn extract_bbox(expr: &FilterExpr) -> (r: Result<Option<BoundingBox>, PlanError>)
    ensures
        r == spec_extract_bbox(*expr),
        r matches Ok(Some(b)) ==> b.wf(),
{
    match expr {
        FilterExpr::ScalarCall { name, arg_count, first_arg_is_geometry_column, second_arg } => {
            if !is_intersects_shape(name.as_str(), *arg_count, *first_arg_is_geometry_column) {
                return Ok(None);
            }
            match second_arg {
                Some(ConstantArgument::Bounds(b)) => if b.is_valid() {
                    Ok(Some(*b))
                } else {
                    Ok(None)
                },
                Some(ConstantArgument::EvalError(m)) => Err(PlanError::Evaluation(m.clone())),
                Some(ConstantArgument::BoundsError(m)) => Err(PlanError::Bounds(m.clone())),
                _ => Ok(None),
            }
        },
        FilterExpr::Other => Ok(None),
    }
}

} // verus!
