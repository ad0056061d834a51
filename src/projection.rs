//! Column projections as ordered sets of column indices, and their merge.
use vstd::prelude::*;

use crate::predicate::PlanError;

verus! {

/// The columns a scan reads, by index into the file schema, in output order.
#[derive(Debug)]
pub struct Projection {
    pub columns: Vec<usize>,
}

/// `a` followed by each element of `b` that is not already there.
pub open spec fn merge_columns(a: Seq<usize>, b: Seq<usize>) -> Seq<usize>
    decreases b.len(),
{
    if b.len() == 0 {
        a
    } else {
        let m = merge_columns(a, b.drop_last());
        if m.contains(b.last()) {
            m
        } else {
            m.push(b.last())
        }
    }
}

/// The index of the first column of `s` that a schema of `n` columns lacks,
/// or `s.len()` when there is none.
pub open spec fn first_out_of_range(s: Seq<usize>, n: usize) -> int
    decreases s.len(),
{
    if s.len() == 0 {
        0
    } else if s[0] >= n {
        0
    } else {
        1 + first_out_of_range(s.drop_first(), n)
    }
}

/// The outcome of merging `b` into `a` over a schema of `n` columns.
pub open spec fn spec_try_merge(a: Seq<usize>, b: Seq<usize>, n: usize) -> Result<
    Seq<usize>,
    PlanError,
> {
    let s = a + b;
    let k = first_out_of_range(s, n);
    if k < s.len() {
        Err(PlanError::ColumnOutOfRange { index: s[k], n_columns: n })
    } else {
        Ok(merge_columns(a, b))
    }
}

impl Projection {
    /// Every column exists in a schema of `n` columns and none is repeated.
    pub open spec fn wf(&self, n: usize) -> bool {
        &&& forall|i: int| 0 <= i < self.columns@.len() ==> self.columns@[i] < n
        &&& self.columns@.no_duplicates()
    }

    /// The projection onto every column of a schema of `n` columns, in order.
    pub fn all_columns(n: usize) -> (r: Projection)
        ensures
            r.columns@ == Seq::new(n as nat, |i: int| i as usize),
            r.wf(n),
    {
        let mut columns: Vec<usize> = Vec::new();
        let mut i: usize = 0;
        while i < n
            invariant
                i <= n,
                columns@ == Seq::new(i as nat, |j: int| j as usize),
            decreases n - i,
        {
            columns.push(i);
            i = i + 1;
        }
        Projection { columns }
    }

    /// A copy of this projection.
    pub fn duplicate(&self) -> (r: Projection)
        ensures
            r.columns@ == self.columns@,
    {
        let mut columns: Vec<usize> = Vec::new();
        let mut i: usize = 0;
        while i < self.columns.len()
            invariant
                i <= self.columns@.len(),
                columns@ == self.columns@.subrange(0, i as int),
            decreases self.columns.len() - i,
        {
            columns.push(self.columns[i]);
            i = i + 1;
        }
        assert(columns@ =~= self.columns@);
        Projection { columns }
    }

    /// Merges another projection into this one over a schema of `n_columns`
    /// columns: the result reads this projection's columns, then each column
    /// of `other` that is not among them. Fails, naming the first offending
    /// index, when either projection names a column that the schema lacks.
    pub fn try_merge(&self, other: &Projection, n_columns: usize) -> (r: Result<
        Projection,
        PlanError,
    >)
        ensures
            match (r, spec_try_merge(self.columns@, other.columns@, n_columns)) {
                (Ok(p), Ok(s)) => p.columns@ == s,
                (Err(e), Err(f)) => e == f,
                _ => false,
            },
            self.columns@.no_duplicates() ==> (r matches Ok(p) ==> p.wf(n_columns)),
    {
        let ghost s = self.columns@ + other.columns@;
        assert(s.subrange(0, s.len() as int) =~= s);
        let mut i: usize = 0;
        while i < self.columns.len()
            invariant
                s == self.columns@ + other.columns@,
                i <= self.columns@.len(),
                first_out_of_range(s, n_columns) == i + first_out_of_range(
                    s.subrange(i as int, s.len() as int),
                    n_columns,
                ),
            decreases self.columns.len() - i,
        {
            let c = self.columns[i];
            proof {
                let t = s.subrange(i as int, s.len() as int);
                assert(t.drop_first() =~= s.subrange(i as int + 1, s.len() as int));
                assert(t[0] == c);
            }
            if c >= n_columns {
                return Err(PlanError::ColumnOutOfRange { index: c, n_columns });
            }
            i = i + 1;
        }
        let mut j: usize = 0;
        while j < other.columns.len()
            invariant
                s == self.columns@ + other.columns@,
                j <= other.columns@.len(),
                first_out_of_range(s, n_columns) == self.columns@.len() + j + first_out_of_range(
                    s.subrange(self.columns@.len() + j, s.len() as int),
                    n_columns,
                ),
            decreases other.columns.len() - j,
        {
            let c = other.columns[j];
            proof {
                let k = self.columns@.len() + j;
                let t = s.subrange(k, s.len() as int);
                assert(t.drop_first() =~= s.subrange(k + 1, s.len() as int));
                assert(t[0] == c);
            }
            if c >= n_columns {
                return Err(PlanError::ColumnOutOfRange { index: c, n_columns });
            }
            j = j + 1;
        }
        proof {
            assert(s.subrange(s.len() as int, s.len() as int).len() == 0);
        }
        let mut merged = self.duplicate();
        let mut j: usize = 0;
        while j < other.columns.len()
            invariant
                j <= other.columns@.len(),
                merged.columns@ == merge_columns(
                    self.columns@,
                    other.columns@.subrange(0, j as int),
                ),
            decreases other.columns.len() - j,
        {
            let c = other.columns[j];
            let ghost b = other.columns@.subrange(0, j as int + 1);
            proof {
                assert(b.drop_last() =~= other.columns@.subrange(0, j as int));
            }
            let mut present = false;
            let mut k: usize = 0;
            while k < merged.columns.len()
                invariant
                    k <= merged.columns@.len(),
                    present == exists|t: int| 0 <= t < k && merged.columns@[t] == c,
                decreases merged.columns.len() - k,
            {
                if merged.columns[k] == c {
                    present = true;
                }
                k = k + 1;
            }
            if !present {
                merged.columns.push(c);
            }
            j = j + 1;
        }
        assert(other.columns@.subrange(0, other.columns@.len() as int) =~= other.columns@);
        proof {
            lemma_all_in_range(s, n_columns);
            lemma_merge_union(self.columns@, other.columns@);
            if self.columns@.no_duplicates() {
                lemma_merge_no_duplicates(self.columns@, other.columns@);
            }
            assert forall|i: int| 0 <= i < merged.columns@.len() implies merged.columns@[i]
                < n_columns by {
                let c = merged.columns@[i];
                assert(merge_columns(self.columns@, other.columns@).contains(c));
                if self.columns@.contains(c) {
                    let k = choose|k: int| 0 <= k < self.columns@.len() && self.columns@[k] == c;
                    assert(s[k] == c);
                } else {
                    let k = choose|k: int| 0 <= k < other.columns@.len() && other.columns@[k] == c;
                    assert(s[self.columns@.len() + k] == c);
                }
            }
        }
        Ok(merged)
    }
}

/// When no column is out of range, every column is below `n`.
proof fn lemma_all_in_range(s: Seq<usize>, n: usize)
    requires
        first_out_of_range(s, n) == s.len(),
    ensures
        forall|i: int| 0 <= i < s.len() ==> s[i] < n,
    decreases s.len(),
{
    if s.len() > 0 {
        lemma_all_in_range(s.drop_first(), n);
        assert forall|i: int| 0 <= i < s.len() implies s[i] < n by {
            if i > 0 {
                assert(s[i] == s.drop_first()[i - 1]);
            }
        }
    }
}

/// The merged columns are exactly those of either projection: the merge is a
/// superset of both inputs and adds nothing else.
pub proof fn lemma_merge_union(a: Seq<usize>, b: Seq<usize>)
    ensures
        forall|c: usize| a.contains(c) ==> #[trigger] merge_columns(a, b).contains(c),
        forall|c: usize| b.contains(c) ==> #[trigger] merge_columns(a, b).contains(c),
        forall|c: usize| #[trigger]
            merge_columns(a, b).contains(c) ==> a.contains(c) || b.contains(c),
    decreases b.len(),
{
    if b.len() > 0 {
        let p = b.drop_last();
        let x = b.last();
        lemma_merge_union(a, p);
        let m = merge_columns(a, p);
        let r = merge_columns(a, b);
        assert(r == if m.contains(x) { m } else { m.push(x) });
        assert forall|c: usize| m.contains(c) implies r.contains(c) by {
            let i = choose|i: int| 0 <= i < m.len() && m[i] == c;
            if !m.contains(x) {
                assert(r[i] == c);
            }
        }
        assert(r.contains(x)) by {
            if !m.contains(x) {
                assert(r[m.len() as int] == x);
            }
        }
        assert forall|c: usize| b.contains(c) implies r.contains(c) by {
            let i = choose|i: int| 0 <= i < b.len() && b[i] == c;
            if i < b.len() - 1 {
                assert(p[i] == c);
                assert(p.contains(c));
                assert(merge_columns(a, p).contains(c));
            }
        }
        assert forall|c: usize| a.contains(c) implies r.contains(c) by {
            assert(merge_columns(a, p).contains(c));
        }
        assert forall|c: usize| #[trigger] r.contains(c) implies a.contains(c) || b.contains(c) by {
            if c == x {
                assert(b[b.len() - 1] == c);
            } else {
                let i = choose|i: int| 0 <= i < r.len() && r[i] == c;
                if !m.contains(x) {
                    assert(i < m.len());
                    assert(m[i] == c);
                }
                assert(m.contains(c));
                assert(merge_columns(a, p).contains(c));
                if p.contains(c) {
                    let k = choose|k: int| 0 <= k < p.len() && p[k] == c;
                    assert(b[k] == c);
                }
            }
        }
    }
}

/// Two projections pushed into a scan that held none: the scan then reads
/// exactly the columns that either names.
pub proof fn lemma_two_pushdowns_read_union(first: Seq<usize>, second: Seq<usize>)
    ensures
        forall|c: usize|
            #[trigger] merge_columns(merge_columns(Seq::empty(), first), second).contains(c) <==> (
            first.contains(c) || second.contains(c)),
{
    lemma_merge_union(Seq::empty(), first);
    lemma_merge_union(merge_columns(Seq::empty(), first), second);
    assert forall|c: usize|
        #[trigger] merge_columns(merge_columns(Seq::empty(), first), second).contains(c) <==> (
        first.contains(c) || second.contains(c)) by {
        assert(!Seq::<usize>::empty().contains(c));
        if first.contains(c) {
            assert(merge_columns(Seq::empty(), first).contains(c));
        }
    }
}

/// Merging keeps a projection free of repeated columns.
pub proof fn lemma_merge_no_duplicates(a: Seq<usize>, b: Seq<usize>)
    requires
        a.no_duplicates(),
    ensures
        merge_columns(a, b).no_duplicates(),
    decreases b.len(),
{
    if b.len() > 0 {
        lemma_merge_no_duplicates(a, b.drop_last());
    }
}

} // verus!
