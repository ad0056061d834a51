//! The scan source for the streaming feature format with a native spatial
//! index: filter and projection pushdown, and the plan of each file open.
use vstd::prelude::*;

use crate::bbox::BoundingBox;
use crate::predicate::{extract_bbox, is_intersects_call, spec_extract_bbox, FilterExpr, PlanError};
use crate::projection::{merge_columns, spec_try_merge, Projection};

verus! {

/// The number of rows per batch when none was configured.
pub const DEFAULT_BATCH_SIZE: usize = 1024;

/// Whether the scan itself applies a filter.
#[derive(Clone, Copy, Debug, PartialEq, Eq, Structural)]
pub enum PushedDown {
    /// The scan prunes by this filter; the engine may still re-apply it.
    Yes,
    /// The engine must apply this filter after the scan.
    No,
}

/// The flags and the resulting box of pushing `filters` down into a scan whose
/// box is `start`: while no box is held, the first filter that yields one is
/// taken and marked pushed down; every other filter is not.
pub open spec fn spec_pushdown(start: Option<BoundingBox>, filters: Seq<FilterExpr>) -> Result<
    (Seq<PushedDown>, Option<BoundingBox>),
    PlanError,
>
    decreases filters.len(),
{
    if filters.len() == 0 {
        Ok((Seq::empty(), start))
    } else {
        match spec_pushdown(start, filters.drop_last()) {
            Err(e) => Err(e),
            Ok((flags, bbox)) => {
                if bbox is Some {
                    Ok((flags.push(PushedDown::No), bbox))
                } else {
                    match spec_extract_bbox(filters.last()) {
                        Err(e) => Err(e),
                        Ok(Some(b)) => Ok((flags.push(PushedDown::Yes), Some(b))),
                        Ok(None) => Ok((flags.push(PushedDown::No), None)),
                    }
                }
            },
        }
    }
}

/// An error on a prefix of the filters is the error of the whole list.
proof fn lemma_pushdown_error_persists(start: Option<BoundingBox>, filters: Seq<FilterExpr>, k: int)
    requires
        0 <= k <= filters.len(),
        spec_pushdown(start, filters.subrange(0, k)) is Err,
    ensures
        spec_pushdown(start, filters) == spec_pushdown(start, filters.subrange(0, k)),
    decreases filters.len() - k,
{
    if k < filters.len() {
        let longer = filters.subrange(0, k + 1);
        assert(longer.drop_last() =~= filters.subrange(0, k));
        lemma_pushdown_error_persists(start, filters, k + 1);
    } else {
        assert(filters.subrange(0, k) =~= filters);
    }
}

/// What pushdown decides. One flag per filter. A scan that already holds a
/// box keeps it and pushes nothing down. Otherwise the filter pushed down, if
/// any, is the first one that yields a box; it has the recognized shape, the
/// box it yields becomes the scan's, and every other filter is left to the
/// engine; that box is finite and well formed. No filter is pushed down exactly when none before the end yields a
/// box, and pushdown fails exactly when a filter consulted before any box was
/// found is malformed.
pub proof fn lemma_pushdown_decisions(start: Option<BoundingBox>, filters: Seq<FilterExpr>)
    ensures
        spec_pushdown(start, filters) matches Ok((flags, bbox)) ==> {
            &&& flags.len() == filters.len()
            &&& start is Some ==> bbox == start && forall|i: int|
                0 <= i < flags.len() ==> flags[i] == PushedDown::No
            &&& start is None && bbox is Some ==> exists|i: int|
                0 <= i < flags.len() && flags[i] == PushedDown::Yes
            &&& start is None && bbox is None ==> forall|i: int|
                0 <= i < filters.len() ==> spec_extract_bbox(#[trigger] filters[i]) == Ok::<
                    Option<BoundingBox>,
                    PlanError,
                >(None)
            &&& forall|i: int|
                0 <= i < flags.len() && #[trigger] flags[i] == PushedDown::Yes ==> {
                    &&& start is None
                    &&& is_intersects_call(filters[i])
                    &&& bbox matches Some(b) && b.wf()
                    &&& spec_extract_bbox(filters[i]) == Ok::<Option<BoundingBox>, PlanError>(bbox)
                    &&& forall|j: int| 0 <= j < flags.len() && j != i ==> flags[j] == PushedDown::No
                    &&& forall|j: int|
                        0 <= j < i ==> spec_extract_bbox(#[trigger] filters[j]) == Ok::<
                            Option<BoundingBox>,
                            PlanError,
                        >(None)
                }
        },
        spec_pushdown(start, filters) matches Err(e) ==> {
            &&& start is None
            &&& exists|i: int|
                0 <= i < filters.len() && spec_extract_bbox(#[trigger] filters[i]) == Err::<
                    Option<BoundingBox>,
                    PlanError,
                >(e) && forall|j: int|
                    0 <= j < i ==> spec_extract_bbox(#[trigger] filters[j]) == Ok::<
                        Option<BoundingBox>,
                        PlanError,
                    >(None)
        },
    decreases filters.len(),
{
    if filters.len() > 0 {
        let init = filters.drop_last();
        let n = init.len() as int;
        lemma_pushdown_decisions(start, init);
        assert forall|i: int| 0 <= i < init.len() implies init[i] == filters[i] by {}
        let x = filters.last();
        assert(filters[n] == x);
        match spec_pushdown(start, init) {
            Err(e) => {
                let i = choose|i: int|
                    0 <= i < init.len() && spec_extract_bbox(#[trigger] init[i]) == Err::<
                        Option<BoundingBox>,
                        PlanError,
                    >(e) && forall|j: int|
                        0 <= j < i ==> spec_extract_bbox(#[trigger] init[j]) == Ok::<
                            Option<BoundingBox>,
                            PlanError,
                        >(None);
                assert(filters[i] == init[i]);
                assert forall|j: int| 0 <= j < i implies spec_extract_bbox(#[trigger] filters[j])
                    == Ok::<Option<BoundingBox>, PlanError>(None) by {
                    assert(filters[j] == init[j]);
                }
            },
            Ok((flags0, bbox0)) => {
                if bbox0 is Some {
                    let flags = flags0.push(PushedDown::No);
                    assert(forall|i: int| 0 <= i < flags0.len() ==> flags[i] == flags0[i]);
                    if start is None {
                        let k = choose|k: int| 0 <= k < flags0.len() && flags0[k] == PushedDown::Yes;
                        assert(flags[k] == PushedDown::Yes);
                    }
                } else {
                    if start is None {
                        assert(forall|i: int| 0 <= i < init.len() ==> spec_extract_bbox(#[trigger] init[i])
                            == Ok::<Option<BoundingBox>, PlanError>(None));
                    }
                    match spec_extract_bbox(x) {
                        Ok(Some(b)) => {
                            let flags = flags0.push(PushedDown::Yes);
                            assert(forall|i: int| 0 <= i < flags0.len() ==> flags[i] == flags0[i]);
                            assert(forall|i: int|
                                0 <= i < flags0.len() ==> flags0[i] == PushedDown::No);
                            assert(flags[flags0.len() as int] == PushedDown::Yes);
                        },
                        Ok(None) => {
                            let flags = flags0.push(PushedDown::No);
                            assert(forall|i: int| 0 <= i < flags0.len() ==> flags[i] == flags0[i]);
                        },
                        Err(e) => {
                            assert(spec_extract_bbox(filters[n]) == Err::<
                                Option<BoundingBox>,
                                PlanError,
                            >(e));
                        },
                    }
                }
            },
        }
    }
}

/// Filters outside the recognized shape never yield a box.
pub proof fn lemma_no_match_conservative(e: FilterExpr)
    requires
        !is_intersects_call(e),
    ensures
        spec_extract_bbox(e) == Ok::<Option<BoundingBox>, PlanError>(None),
{
}

/// Soundness of pushdown. Let filter `i` be the one pushed down, its constant
/// geometry having bounds `c` and holding the point `(x, y)`, and let a
/// feature's geometry hold the same point, so that the feature passes the
/// filter. Then the feature's bounds intersect the scan's box: the selection
/// keeps it.
pub proof fn lemma_pushdown_sound(
    start: Option<BoundingBox>,
    filters: Seq<FilterExpr>,
    i: int,
    feature_bounds: BoundingBox,
    x: int,
    y: int,
)
    requires
        spec_pushdown(start, filters) matches Ok((flags, _)) && 0 <= i < flags.len() && flags[i]
            == PushedDown::Yes,
        spec_extract_bbox(filters[i]) matches Ok(Some(c)) && c.contains_point(x, y),
        feature_bounds.contains_point(x, y),
    ensures
        spec_pushdown(start, filters) matches Ok((_, Some(b))) && Selection::Within(b).spec_admits(
            feature_bounds,
        ),
{
    lemma_pushdown_decisions(start, filters);
    if let Ok((flags, bbox)) = spec_pushdown(start, filters) {
        assert(flags[i] == PushedDown::Yes);
        if let Ok(Some(c)) = spec_extract_bbox(filters[i]) {
            crate::bbox::lemma_common_point_intersects(feature_bounds, c, x, y);
        }
    }
}

/// Which features the native spatial index is asked for.
#[derive(Clone, Copy, Debug, PartialEq, Eq, Structural)]
pub enum Selection {
    /// Every feature of the file.
    All,
    /// The features whose bounds intersect the box.
    Within(BoundingBox),
}

impl Selection {
    pub open spec fn spec_admits(&self, feature_bounds: BoundingBox) -> bool {
        match self {
            Selection::All => true,
            Selection::Within(b) => feature_bounds.spec_intersects(b),
        }
    }

    /// Whether a feature with these bounds belongs to the selection.
    pub fn admits(&self, feature_bounds: &BoundingBox) -> (r: bool)
        ensures
            r == self.spec_admits(*feature_bounds),
    {
        match self {
            Selection::All => true,
            Selection::Within(b) => feature_bounds.intersects(b),
        }
    }
}

/// The scan configuration of one logical scan. Every pushdown returns a new
/// value and leaves this one as it was.
#[derive(Debug)]
pub struct FlatGeobufSource {
    /// Rows per batch, if configured.
    pub batch_size: Option<usize>,
    /// The number of columns of the file schema.
    pub n_columns: usize,
    /// The projection pushed down, by index into the file schema; `None`
    /// while none was pushed down, when every column is read.
    pub projection: Option<Projection>,
    /// The box pushed down, if any.
    pub bbox: Option<BoundingBox>,
}

/// The outcome of offering filters to a scan.
#[derive(Debug)]
pub struct FilterPushdown {
    /// One flag per offered filter, in order.
    pub pushed: Vec<PushedDown>,
    /// The scan to use from now on, when it holds a box.
    pub updated: Option<FlatGeobufSource>,
}

/// What one file open does: read these columns in batches of this size from
/// this selection of the file's features.
#[derive(Debug)]
pub struct OpenPlan {
    pub columns: Vec<usize>,
    pub batch_size: usize,
    pub selection: Selection,
}

/// Opens files of one scan against a snapshot of its configuration.
#[derive(Debug)]
pub struct FlatGeobufOpener {
    pub config: FlatGeobufSource,
}

impl FlatGeobufSource {
    pub open spec fn wf(&self) -> bool {
        self.projection matches Some(p) ==> p.wf(self.n_columns)
    }

    /// The columns of the projection pushed down, if any.
    pub open spec fn projection_view(&self) -> Option<Seq<usize>> {
        match self.projection {
            Some(p) => Some(p.columns@),
            None => None,
        }
    }

    /// The columns that a new projection is merged into: none while no
    /// projection was pushed down.
    pub open spec fn pushed_columns(&self) -> Seq<usize> {
        match self.projection {
            Some(p) => p.columns@,
            None => Seq::empty(),
        }
    }

    /// The columns the scan reads, in output order.
    pub open spec fn spec_read_columns(&self) -> Seq<usize> {
        match self.projection {
            Some(p) => p.columns@,
            None => Seq::new(self.n_columns as nat, |i: int| i as usize),
        }
    }

    /// A scan of a file schema with `n_columns` columns that has no
    /// projection pushed down (so reads every column), holds no box and has no
    /// batch size yet.
    pub fn new(n_columns: usize) -> (r: FlatGeobufSource)
        ensures
            r.batch_size is None,
            r.n_columns == n_columns,
            r.projection is None,
            r.spec_read_columns() == Seq::new(n_columns as nat, |i: int| i as usize),
            r.bbox is None,
            r.wf(),
    {
        FlatGeobufSource { batch_size: None, n_columns, projection: None, bbox: None }
    }

    /// A copy of this configuration.
    pub fn duplicate(&self) -> (r: FlatGeobufSource)
        ensures
            r.batch_size == self.batch_size,
            r.n_columns == self.n_columns,
            r.projection_view() == self.projection_view(),
            r.bbox == self.bbox,
    {
        let projection = match &self.projection {
            Some(p) => Some(p.duplicate()),
            None => None,
        };
        FlatGeobufSource {
            batch_size: self.batch_size,
            n_columns: self.n_columns,
            projection,
            bbox: self.bbox,
        }
    }

    /// This configuration with `bbox` pushed down.
    fn with_bbox(self, bbox: BoundingBox) -> (r: FlatGeobufSource)
        ensures
            r.batch_size == self.batch_size,
            r.n_columns == self.n_columns,
            r.projection == self.projection,
            r.bbox == Some(bbox),
    {
        FlatGeobufSource { bbox: Some(bbox), ..self }
    }

    /// This configuration with batches of `batch_size` rows.
    pub fn with_batch_size(&self, batch_size: usize) -> (r: FlatGeobufSource)
        ensures
            r.batch_size == Some(batch_size),
            r.n_columns == self.n_columns,
            r.projection_view() == self.projection_view(),
            r.bbox == self.bbox,
    {
        let mut conf = self.duplicate();
        conf.batch_size = Some(batch_size);
        conf
    }

    /// The projection pushed down, if any.
    pub fn projection(&self) -> (r: &Option<Projection>)
        ensures
            r == &self.projection,
    {
        &self.projection
    }

    /// The columns the scan reads, by index into the file schema, in output
    /// order: the projection pushed down, or every column.
    pub fn read_columns(&self) -> (r: Vec<usize>)
        ensures
            r@ == self.spec_read_columns(),
    {
        match &self.projection {
            Some(p) => p.duplicate().columns,
            None => Projection::all_columns(self.n_columns).columns,
        }
    }

    /// The file-schema columns behind positions of the scan's output, or
    /// `None` when a position is beyond the output.
    pub fn output_columns(&self, positions: &Vec<usize>) -> (r: Option<Vec<usize>>)
        ensures
            match r {
                Some(c) => {
                    &&& c@.len() == positions@.len()
                    &&& forall|i: int|
                        0 <= i < c@.len() ==> #[trigger] positions@[i] < self.spec_read_columns().len()
                    &&& forall|i: int|
                        0 <= i < c@.len() ==> #[trigger] c@[i] == self.spec_read_columns()[positions@[i] as int]
                },
                None => exists|i: int|
                    0 <= i < positions@.len() && positions@[i] >= self.spec_read_columns().len(),
            },
    {
        let read = self.read_columns();
        let mut out: Vec<usize> = Vec::new();
        let mut i: usize = 0;
        while i < positions.len()
            invariant
                read@ == self.spec_read_columns(),
                i <= positions@.len(),
                out@.len() == i,
                forall|j: int| 0 <= j < i ==> #[trigger] positions@[j] < read@.len(),
                forall|j: int| 0 <= j < i ==> #[trigger] out@[j] == read@[positions@[j] as int],
            decreases positions.len() - i,
        {
            let k = positions[i];
            if k >= read.len() {
                return None;
            }
            let ghost before = out@;
            out.push(read[k]);
            assert forall|j: int| 0 <= j < i + 1 implies #[trigger] out@[j] == read@[positions@[j] as int] by {
                if j < i {
                    assert(out@[j] == before[j]);
                }
            }
            i = i + 1;
        }
        Some(out)
    }

    /// The name of the file format.
    pub fn file_type(&self) -> (r: &'static str)
        ensures
            r@ == "flatgeobuf"@,
    {
        "flatgeobuf"
    }

    /// The scan may be split across partitions file by file.
    pub fn supports_repartitioning(&self) -> (r: bool)
        ensures
            r,
    {
        true
    }

    /// Offers filters to the scan. While it holds no box, the first filter
    /// that yields one is pushed down; all others are left to the engine. The
    /// updated scan, with the box, comes back whenever the scan holds one.
    pub fn try_pushdown_filters(&self, filters: &Vec<FilterExpr>) -> (r: Result<
        FilterPushdown,
        PlanError,
    >)
        ensures
            match (r, spec_pushdown(self.bbox, filters@)) {
                (Ok(p), Ok((flags, bbox))) => {
                    &&& p.pushed@ == flags
                    &&& match p.updated {
                        Some(u) => {
                            &&& bbox is Some
                            &&& u.bbox == bbox
                            &&& u.batch_size == self.batch_size
                            &&& u.n_columns == self.n_columns
                            &&& u.projection_view() == self.projection_view()
                        },
                        None => bbox is None,
                    }
                },
                (Err(e), Err(f)) => e == f,
                _ => false,
            },
    {
        let mut pushed: Vec<PushedDown> = Vec::new();
        let mut bbox = self.bbox;
        let mut i: usize = 0;
        while i < filters.len()
            invariant
                i <= filters@.len(),
                spec_pushdown(self.bbox, filters@.subrange(0, i as int)) == Ok::<
                    (Seq<PushedDown>, Option<BoundingBox>),
                    PlanError,
                >((pushed@, bbox)),
            decreases filters.len() - i,
        {
            proof {
                assert(filters@.subrange(0, i as int + 1).drop_last() =~= filters@.subrange(
                    0,
                    i as int,
                ));
            }
            if bbox.is_none() {
                match extract_bbox(&filters[i]) {
                    Err(e) => {
                        proof {
                            lemma_pushdown_error_persists(self.bbox, filters@, i as int + 1);
                        }
                        return Err(e);
                    },
                    Ok(Some(b)) => {
                        bbox = Some(b);
                        pushed.push(PushedDown::Yes);
                    },
                    Ok(None) => {
                        pushed.push(PushedDown::No);
                    },
                }
            } else {
                pushed.push(PushedDown::No);
            }
            i = i + 1;
        }
        assert(filters@.subrange(0, filters@.len() as int) =~= filters@);
        match bbox {
            Some(b) => Ok(
                FilterPushdown { pushed, updated: Some(self.duplicate().with_bbox(b)) },
            ),
            None => Ok(FilterPushdown { pushed, updated: None }),
        }
    }

    /// Pushes a projection down. The first one is adopted (each column once);
    /// later ones are merged into the projection held, so that the scan reads
    /// every column that any of them names. Fails, naming the first offending
    /// index, when a column is beyond the schema.
    pub fn try_pushdown_projection(&self, projection: &Projection) -> (r: Result<
        FlatGeobufSource,
        PlanError,
    >)
        ensures
            match (r, spec_try_merge(self.pushed_columns(), projection.columns@, self.n_columns)) {
                (Ok(s), Ok(cols)) => {
                    &&& s.projection_view() == Some(cols)
                    &&& s.batch_size == self.batch_size
                    &&& s.n_columns == self.n_columns
                    &&& s.bbox == self.bbox
                },
                (Err(e), Err(f)) => e == f,
                _ => false,
            },
            r matches Ok(s) ==> s.projection_view() == Some(
                match self.projection_view() {
                    None => merge_columns(Seq::empty(), projection.columns@),
                    Some(held) => merge_columns(held, projection.columns@),
                },
            ),
            self.wf() ==> (r matches Ok(s) ==> s.wf()),
    {
        let merged = match &self.projection {
            Some(held) => held.try_merge(projection, self.n_columns)?,
            None => {
                let nothing = Projection { columns: Vec::new() };
                assert(nothing.columns@.no_duplicates());
                nothing.try_merge(projection, self.n_columns)?
            },
        };
        Ok(
            FlatGeobufSource {
                batch_size: self.batch_size,
                n_columns: self.n_columns,
                projection: Some(merged),
                bbox: self.bbox,
            },
        )
    }

    /// An opener bound to a snapshot of this configuration.
    pub fn create_file_opener(&self) -> (r: FlatGeobufOpener)
        ensures
            r.config.batch_size == self.batch_size,
            r.config.n_columns == self.n_columns,
            r.config.projection_view() == self.projection_view(),
            r.config.bbox == self.bbox,
    {
        FlatGeobufOpener::new(self.duplicate())
    }
}

impl FlatGeobufOpener {
    pub fn new(config: FlatGeobufSource) -> (r: FlatGeobufOpener)
        ensures
            r.config == config,
    {
        FlatGeobufOpener { config }
    }

    /// The plan of opening one file: the projected columns, the configured
    /// batch size or the default, and the box selection or all features.
    pub fn plan(&self) -> (r: OpenPlan)
        ensures
            r.columns@ == self.config.spec_read_columns(),
            r.batch_size == match self.config.batch_size {
                Some(n) => n,
                None => DEFAULT_BATCH_SIZE,
            },
            r.selection == match self.config.bbox {
                Some(b) => Selection::Within(b),
                None => Selection::All,
            },
    {
        let batch_size = match self.config.batch_size {
            Some(n) => n,
            None => DEFAULT_BATCH_SIZE,
        };
        let selection = match self.config.bbox {
            Some(b) => Selection::Within(b),
            None => Selection::All,
        };
        OpenPlan { columns: self.config.read_columns(), batch_size, selection }
    }
}

} // verus!
