//! Grids of optional cells and the R-by-C contingency test.
//!
//! A table under entry is a ragged grid of optional cells. The logical
//! extent is the smallest box holding every filled cell; the test demands
//! that every cell inside that box be present and filled, computes the
//! expected count of each cell from the row and column margins, and sums
//! the squared deviations over the expected counts. The p-value is the
//! upper tail of the Chi-squared distribution at the statistic, fetched
//! through a [`Query`].

use vstd::prelude::*;

use crate::dist::DistParams;
use crate::dist::Query;
use crate::error::SolveError;
use crate::fixed::spec_div;
use crate::fixed::spec_mul;
use crate::fixed::spec_sub;
use crate::fixed::tdiv;
use crate::fixed::Fx;
use crate::fixed::SCALE;

verus! {

/// The grid as a sequence of row views.
pub open spec fn grid_view<T>(g: Seq<Vec<Option<T>>>) -> Seq<Seq<Option<T>>> {
    g.map_values(|row: Vec<Option<T>>| row@)
}

/// The width and height of the smallest box holding every filled cell.
pub fn get_fill_shape<T>(g: &Vec<Vec<Option<T>>>) -> (r: (usize, usize))
    ensures
        forall|i: int, j: int|
            0 <= i < g@.len() && 0 <= j < g@[i]@.len() && g@[i]@[j] is Some ==> j < r.0 && i
                < r.1,
        r.0 > 0 ==> exists|i: int, j: int|
            0 <= i < g@.len() && 0 <= j < g@[i]@.len() && g@[i]@[j] is Some && j == r.0 - 1,
        r.1 > 0 ==> exists|i: int, j: int|
            0 <= i < g@.len() && 0 <= j < g@[i]@.len() && g@[i]@[j] is Some && i == r.1 - 1,
        (r.0 == 0) == (r.1 == 0),
        r.1 <= g@.len(),
        shape_props(grid_view(g@), r.0 as int, r.1 as int),
{
    let mut w: usize = 0;
    let mut h: usize = 0;
    let ghost mut wi: int = 0;
    let ghost mut wj: int = 0;
    let ghost mut hi: int = 0;
    let ghost mut hj: int = 0;
    let rows = g.len();
    let mut i: usize = 0;
    while i < rows
        invariant
            0 <= i <= rows == g@.len(),
            forall|a: int, b: int|
                0 <= a < i && 0 <= b < g@[a]@.len() && g@[a]@[b] is Some ==> b < w && a < h,
            w > 0 ==> 0 <= wi < g@.len() && 0 <= wj < g@[wi]@.len() && g@[wi]@[wj] is Some && wj
                == w - 1,
            h > 0 ==> 0 <= hi < g@.len() && 0 <= hj < g@[hi]@.len() && g@[hi]@[hj] is Some && hi
                == h - 1,
            (w == 0) == (h == 0),
            h <= i,
        decreases rows - i,
    {
        let cols = g[i].len();
        let mut j: usize = 0;
        while j < cols
            invariant
                0 <= i < rows == g@.len(),
                0 <= j <= cols == g@[i as int]@.len(),
                forall|a: int, b: int|
                    0 <= a < i && 0 <= b < g@[a]@.len() && g@[a]@[b] is Some ==> b < w && a < h,
                forall|b: int| 0 <= b < j && g@[i as int]@[b] is Some ==> b < w && i < h,
                w > 0 ==> 0 <= wi < g@.len() && 0 <= wj < g@[wi]@.len() && g@[wi]@[wj] is Some
                    && wj == w - 1,
                h > 0 ==> 0 <= hi < g@.len() && 0 <= hj < g@[hi]@.len() && g@[hi]@[hj] is Some
                    && hi == h - 1,
                (w == 0) == (h == 0),
                h <= i + 1,
            decreases cols - j,
        {
            if g[i][j].is_some() {
                if j + 1 > w {
                    w = j + 1;
                    proof {
                        wi = i as int;
                        wj = j as int;
                    }
                }
                if i + 1 > h {
                    h = i + 1;
                    proof {
                        hi = i as int;
                        hj = j as int;
                    }
                }
            }
            j = j + 1;
        }
        i = i + 1;
    }
    proof {
        let gs = grid_view(g@);
        assert(forall|k: int| 0 <= k < gs.len() ==> #[trigger] gs[k] == g@[k]@);
        assert forall|a: int, b: int|
            0 <= a < gs.len() && 0 <= b < gs[a].len() && (#[trigger] gs[a][b]) is Some implies b
            < w && a < h by {
            assert(gs[a] == g@[a]@);
        }
        if w > 0 {
            assert(gs[wi] == g@[wi]@);
            assert(0 <= wi < gs.len() && 0 <= wj < gs[wi].len() && gs[wi][wj] is Some && wj == (
            w - 1));
        }
        if h > 0 {
            assert(gs[hi] == g@[hi]@);
            assert(0 <= hi < gs.len() && 0 <= hj < gs[hi].len() && gs[hi][hj] is Some && hi == (
            h - 1));
        }
    }
    (w, h)
}

/// Whether every present cell inside the box `fill` is filled.
pub fn get_all_fill<T>(g: &Vec<Vec<Option<T>>>, fill: (usize, usize)) -> (r: bool)
    ensures
        r == forall|i: int, j: int|
            0 <= i < g@.len() && i < fill.1 && 0 <= j < g@[i]@.len() && j < fill.0
                ==> (#[trigger] g@[i]@[j]) is Some,
{
    let rows = g.len();
    let mut i: usize = 0;
    while i < rows
        invariant
            0 <= i <= rows == g@.len(),
            forall|a: int, b: int|
                0 <= a < i && a < fill.1 && 0 <= b < g@[a]@.len() && b < fill.0
                    ==> (#[trigger] g@[a]@[b]) is Some,
        decreases rows - i,
    {
        if i < fill.1 {
            let cols = g[i].len();
            let mut j: usize = 0;
            while j < cols
                invariant
                    0 <= i < rows == g@.len(),
                    (i as int) < fill.1,
                    0 <= j <= cols == g@[i as int]@.len(),
                    forall|b: int|
                        0 <= b < j && b < fill.0 ==> (#[trigger] g@[i as int]@[b]) is Some,
                decreases cols - j,
            {
                if j < fill.0 && g[i][j].is_none() {
                    proof {
                        assert(0 <= i < g@.len() && (i as int) < fill.1 && 0 <= j
                            < g@[i as int]@.len() && (j as int) < fill.0 && !((
                        g@[i as int]@[j as int]) is Some));
                    }
                    return false;
                }
                j = j + 1;
            }
        }
        i = i + 1;
    }
    true
}

/// The width of the first row (zero for an empty grid), and the row count.
pub fn get_shape<T>(g: &Vec<Vec<T>>) -> (r: (usize, usize))
    ensures
        r.0 == (if g@.len() == 0 {
            0int
        } else {
            g@[0]@.len() as int
        }),
        r.1 == g@.len(),
{
    let w = if g.len() == 0 {
        0
    } else {
        g[0].len()
    };
    (w, g.len())
}

/// Appends an empty-cell row of the first row's width (an empty row to an
/// empty grid).
pub fn add_row(g: &mut Vec<Vec<Option<Fx>>>)
    ensures
        final(g)@.len() == old(g)@.len() + 1,
        forall|i: int| 0 <= i < old(g)@.len() ==> final(g)@[i] == old(g)@[i],
        final(g)@.last()@.len() == (if old(g)@.len() == 0 {
            0int
        } else {
            old(g)@[0]@.len() as int
        }),
        forall|j: int|
            0 <= j < final(g)@.last()@.len() ==> (#[trigger] final(g)@.last()@[j]) is None,
{
    if g.len() == 0 {
        let row: Vec<Option<Fx>> = Vec::new();
        g.push(row);
    } else {
        let n = g[0].len();
        let mut row: Vec<Option<Fx>> = Vec::new();
        let mut j: usize = 0;
        while j < n
            invariant
                0 <= j <= n,
                row@.len() == j,
                forall|k: int| 0 <= k < j ==> (#[trigger] row@[k]) is None,
            decreases n - j,
        {
            row.push(None);
            j = j + 1;
        }
        g.push(row);
    }
}

/// Appends an empty cell to every row.
pub fn add_col(g: &mut Vec<Vec<Option<Fx>>>)
    ensures
        final(g)@.len() == old(g)@.len(),
        forall|i: int|
            0 <= i < old(g)@.len() ==> #[trigger] final(g)@[i]@ == old(g)@[i]@.push(
                None::<Fx>,
            ),
{
    let n = g.len();
    let mut i: usize = 0;
    while i < n
        invariant
            0 <= i <= n == g@.len(),
            g@.len() == old(g)@.len(),
            forall|k: int| 0 <= k < i ==> #[trigger] g@[k]@ == old(g)@[k]@.push(None::<Fx>),
            forall|k: int| i <= k < n ==> #[trigger] g@[k] == old(g)@[k],
        decreases n - i,
    {
        let row = &mut g[i];
        row.push(None);
        i = i + 1;
    }
}

/// Removes the last row, if any.
pub fn rem_row<T>(g: &mut Vec<Vec<T>>)
    ensures
        old(g)@.len() == 0 ==> final(g)@ == old(g)@,
        old(g)@.len() > 0 ==> final(g)@ == old(g)@.drop_last(),
{
    if g.len() > 0 {
        let _ = g.pop();
    }
}

/// Removes the last cell of every row that has one.
pub fn rem_col<T>(g: &mut Vec<Vec<T>>)
    ensures
        final(g)@.len() == old(g)@.len(),
        forall|i: int|
            0 <= i < old(g)@.len() ==> #[trigger] final(g)@[i]@ == (if old(g)@[i]@.len() == 0 {
                old(g)@[i]@
            } else {
                old(g)@[i]@.drop_last()
            }),
{
    let n = g.len();
    let mut i: usize = 0;
    while i < n
        invariant
            0 <= i <= n == g@.len(),
            g@.len() == old(g)@.len(),
            forall|k: int|
                0 <= k < i ==> #[trigger] g@[k]@ == (if old(g)@[k]@.len() == 0 {
                    old(g)@[k]@
                } else {
                    old(g)@[k]@.drop_last()
                }),
            forall|k: int| i <= k < n ==> #[trigger] g@[k] == old(g)@[k],
        decreases n - i,
    {
        let row = &mut g[i];
        if row.len() > 0 {
            let _ = row.pop();
        }
        i = i + 1;
    }
}

/// The filled value of a cell (zero where the cell is absent; the test
/// only reads cells shown to be filled).
pub open spec fn cell(g: Seq<Seq<Option<Fx>>>, i: int, j: int) -> int {
    if 0 <= i < g.len() && 0 <= j < g[i].len() {
        match g[i][j] {
            Some(v) => v.raw as int,
            None => 0,
        }
    } else {
        0
    }
}

/// The sum of row `i` over the first `w` columns, in millionths.
pub open spec fn row_total(g: Seq<Seq<Option<Fx>>>, i: int, w: int) -> int
    decreases w,
{
    if w <= 0 {
        0
    } else {
        row_total(g, i, w - 1) + cell(g, i, w - 1)
    }
}

/// The sum of column `j` over the first `h` rows, in millionths.
pub open spec fn col_total(g: Seq<Seq<Option<Fx>>>, j: int, h: int) -> int
    decreases h,
{
    if h <= 0 {
        0
    } else {
        col_total(g, j, h - 1) + cell(g, h - 1, j)
    }
}

/// The sum of the whole region, in millionths.
pub open spec fn grand_total(g: Seq<Seq<Option<Fx>>>, w: int, h: int) -> int
    decreases h,
{
    if h <= 0 {
        0
    } else {
        grand_total(g, w, h - 1) + row_total(g, h - 1, w)
    }
}

/// The expected count of cell `(i, j)`: the grand total times the column
/// proportion times the row proportion, each product truncated.
pub open spec fn rc_expected(g: Seq<Seq<Option<Fx>>>, i: int, j: int, w: int, h: int) -> int {
    let t = grand_total(g, w, h);
    let pc = tdiv(col_total(g, j, h) * (SCALE as int), t);
    let pr = tdiv(row_total(g, i, w) * (SCALE as int), t);
    tdiv(tdiv(t * pc, SCALE as int) * pr, SCALE as int)
}

/// One cell's term: the squared deviation over the expected count.
pub open spec fn rc_term(g: Seq<Seq<Option<Fx>>>, i: int, j: int, w: int, h: int) -> int {
    let e = rc_expected(g, i, j, w, h);
    let d = e - cell(g, i, j);
    tdiv(tdiv(d * d, SCALE as int) * (SCALE as int), e)
}

/// The statistic of row `i` over the first `j` columns.
pub open spec fn rc_row_stat(g: Seq<Seq<Option<Fx>>>, i: int, j: int, w: int, h: int) -> int
    decreases j,
{
    if j <= 0 {
        0
    } else {
        rc_row_stat(g, i, j - 1, w, h) + rc_term(g, i, j - 1, w, h)
    }
}

/// The statistic over the first `i` rows.
pub open spec fn rc_stat(g: Seq<Seq<Option<Fx>>>, i: int, w: int, h: int) -> int
    decreases i,
{
    if i <= 0 {
        0
    } else {
        rc_stat(g, i - 1, w, h) + rc_row_stat(g, i - 1, w, w, h)
    }
}

/// Whether `(w, h)` is the smallest box holding every filled cell: every
/// filled cell lies inside it, and each positive side is met by one.
pub open spec fn shape_props<T>(gs: Seq<Seq<Option<T>>>, w: int, h: int) -> bool {
    &&& w >= 0 && h >= 0
    &&& (w == 0) == (h == 0)
    &&& forall|i: int, j: int|
        0 <= i < gs.len() && 0 <= j < gs[i].len() && (#[trigger] gs[i][j]) is Some ==> j < w
            && i < h
    &&& (w > 0 ==> exists|i: int, j: int|
        0 <= i < gs.len() && 0 <= j < gs[i].len() && (#[trigger] gs[i][j]) is Some && j == w
            - 1)
    &&& (h > 0 ==> exists|i: int, j: int|
        0 <= i < gs.len() && 0 <= j < gs[i].len() && (#[trigger] gs[i][j]) is Some && i == h
            - 1)
}

proof fn lemma_shape_unique<T>(gs: Seq<Seq<Option<T>>>, w1: int, h1: int, w2: int, h2: int)
    requires
        shape_props(gs, w1, h1),
        shape_props(gs, w2, h2),
    ensures
        w1 == w2,
        h1 == h2,
{
    if w1 < w2 {
        let (i, j) = choose|i: int, j: int|
            0 <= i < gs.len() && 0 <= j < gs[i].len() && (#[trigger] gs[i][j]) is Some && j == w2
                - 1;
        assert(j < w1);
        assert(false);
    }
    if w2 < w1 {
        let (i, j) = choose|i: int, j: int|
            0 <= i < gs.len() && 0 <= j < gs[i].len() && (#[trigger] gs[i][j]) is Some && j == w1
                - 1;
        assert(j < w2);
        assert(false);
    }
    if h1 < h2 {
        let (i, j) = choose|i: int, j: int|
            0 <= i < gs.len() && 0 <= j < gs[i].len() && (#[trigger] gs[i][j]) is Some && i == h2
                - 1;
        assert(i < h1);
        assert(false);
    }
    if h2 < h1 {
        let (i, j) = choose|i: int, j: int|
            0 <= i < gs.len() && 0 <= j < gs[i].len() && (#[trigger] gs[i][j]) is Some && i == h1
                - 1;
        assert(i < h2);
        assert(false);
    }
}

/// Whether every partial sum of row `i` over the first `j` columns stays
/// in range.
pub open spec fn row_in_range(gs: Seq<Seq<Option<Fx>>>, i: int, j: int) -> bool
    decreases j,
{
    if j <= 0 {
        true
    } else {
        row_in_range(gs, i, j - 1) && i64::MIN <= row_total(gs, i, j) <= i64::MAX
    }
}

proof fn lemma_row_range_extends(gs: Seq<Seq<Option<Fx>>>, i: int, j1: int, j2: int)
    requires
        0 <= j1 <= j2,
        !row_in_range(gs, i, j1),
    ensures
        !row_in_range(gs, i, j2),
    decreases j2,
{
    if j1 < j2 {
        lemma_row_range_extends(gs, i, j1, j2 - 1);
    }
}

/// Whether every partial sum of column `j` over the first `i` rows stays
/// in range.
pub open spec fn col_in_range(gs: Seq<Seq<Option<Fx>>>, j: int, i: int) -> bool
    decreases i,
{
    if i <= 0 {
        true
    } else {
        col_in_range(gs, j, i - 1) && i64::MIN <= col_total(gs, j, i) <= i64::MAX
    }
}

proof fn lemma_col_range_extends(gs: Seq<Seq<Option<Fx>>>, j: int, i1: int, i2: int)
    requires
        0 <= i1 <= i2,
        !col_in_range(gs, j, i1),
    ensures
        !col_in_range(gs, j, i2),
    decreases i2,
{
    if i1 < i2 {
        lemma_col_range_extends(gs, j, i1, i2 - 1);
    }
}

/// Whether every partial grand total over the first `i` rows stays in
/// range.
pub open spec fn grand_in_range(gs: Seq<Seq<Option<Fx>>>, w: int, i: int) -> bool
    decreases i,
{
    if i <= 0 {
        true
    } else {
        grand_in_range(gs, w, i - 1) && i64::MIN <= grand_total(gs, w, i) <= i64::MAX
    }
}

proof fn lemma_grand_range_extends(gs: Seq<Seq<Option<Fx>>>, w: int, i1: int, i2: int)
    requires
        0 <= i1 <= i2,
        !grand_in_range(gs, w, i1),
    ensures
        !grand_in_range(gs, w, i2),
    decreases i2,
{
    if i1 < i2 {
        lemma_grand_range_extends(gs, w, i1, i2 - 1);
    }
}

/// Whether cell `(i, j)`'s term of the statistic is computable: the
/// proportions, the expected count, the deviation and the final quotient
/// all land, in particular the expected count is nonzero.
pub open spec fn rc_term_ok(gs: Seq<Seq<Option<Fx>>>, i: int, j: int, w: int, h: int) -> bool {
    let t = Fx { raw: grand_total(gs, w, h) as i64 };
    let cj = Fx { raw: col_total(gs, j, h) as i64 };
    let ri = Fx { raw: row_total(gs, i, w) as i64 };
    let o = Fx { raw: cell(gs, i, j) as i64 };
    match spec_div(cj, t) {
        None => false,
        Some(pc) => match spec_div(ri, t) {
            None => false,
            Some(pr) => match spec_mul(t, pc) {
                None => false,
                Some(e1) => match spec_mul(e1, pr) {
                    None => false,
                    Some(e) => match spec_sub(e, o) {
                        None => false,
                        Some(d) => match spec_mul(d, d) {
                            None => false,
                            Some(sq) => spec_div(sq, e) is Some,
                        },
                    },
                },
            },
        },
    }
}

/// Whether every term of row `i` up to column `j` is computable and every
/// partial row statistic stays in range.
pub open spec fn rowstat_in_range(gs: Seq<Seq<Option<Fx>>>, i: int, j: int, w: int, h: int) -> bool
    decreases j,
{
    if j <= 0 {
        true
    } else {
        rowstat_in_range(gs, i, j - 1, w, h) && rc_term_ok(gs, i, j - 1, w, h) && i64::MIN
            <= rc_row_stat(gs, i, j, w, h) <= i64::MAX
    }
}

proof fn lemma_rowstat_range_extends(
    gs: Seq<Seq<Option<Fx>>>,
    i: int,
    j1: int,
    j2: int,
    w: int,
    h: int,
)
    requires
        0 <= j1 <= j2,
        !rowstat_in_range(gs, i, j1, w, h),
    ensures
        !rowstat_in_range(gs, i, j2, w, h),
    decreases j2,
{
    if j1 < j2 {
        lemma_rowstat_range_extends(gs, i, j1, j2 - 1, w, h);
    }
}

/// Whether every row statistic of the first `i` rows is computable and
/// every partial statistic stays in range.
pub open spec fn stat_in_range(gs: Seq<Seq<Option<Fx>>>, i: int, w: int, h: int) -> bool
    decreases i,
{
    if i <= 0 {
        true
    } else {
        stat_in_range(gs, i - 1, w, h) && rowstat_in_range(gs, i - 1, w, w, h) && i64::MIN
            <= rc_stat(gs, i, w, h) <= i64::MAX
    }
}

proof fn lemma_stat_range_extends(gs: Seq<Seq<Option<Fx>>>, i1: int, i2: int, w: int, h: int)
    requires
        0 <= i1 <= i2,
        !stat_in_range(gs, i1, w, h),
    ensures
        !stat_in_range(gs, i2, w, h),
    decreases i2,
{
    if i1 < i2 {
        lemma_stat_range_extends(gs, i1, i2 - 1, w, h);
    }
}

/// The conditions under which the test is owed: a region at least two by
/// two, margins, total and statistic all in range, a nonzero total,
/// nonzero expected counts, and representable degrees of freedom.
pub open spec fn rc_ok(gs: Seq<Seq<Option<Fx>>>, w: int, h: int) -> bool {
    &&& 2 <= w && 2 <= h
    &&& forall|i: int| 0 <= i < h ==> #[trigger] row_in_range(gs, i, w)
    &&& forall|j: int| 0 <= j < w ==> #[trigger] col_in_range(gs, j, h)
    &&& grand_in_range(gs, w, h)
    &&& grand_total(gs, w, h) != 0
    &&& stat_in_range(gs, h, w, h)
    &&& (w - 1) * (h - 1) <= usize::MAX
    &&& (w - 1) * (h - 1) * (SCALE as int) <= i64::MAX
}

/// What the test owes for the region `(w, h)`: the incomplete-table error
/// on an incomplete region, the too-small error on an empty complete one,
/// and a plan on a complete region whose arithmetic is in range.
pub open spec fn rc_outcome(
    gs: Seq<Seq<Option<Fx>>>,
    w: int,
    h: int,
    r: Result<RcPlan, SolveError>,
) -> bool {
    &&& (!region_complete(gs, w, h) ==> r == Err::<RcPlan, SolveError>(
        SolveError::IncompleteTable,
    ))
    &&& (region_complete(gs, w, h) && w == 0 ==> r == Err::<RcPlan, SolveError>(
        SolveError::TableTooSmall,
    ))
    &&& (region_complete(gs, w, h) && rc_ok(gs, w, h) ==> (r matches Ok(plan) && plan.width == w
        && plan.height == h))
}

proof fn lemma_rc_outcome_all(
    gs: Seq<Seq<Option<Fx>>>,
    w0: int,
    h0: int,
    r: Result<RcPlan, SolveError>,
)
    requires
        shape_props(gs, w0, h0),
        rc_outcome(gs, w0, h0, r),
    ensures
        forall|w: int, h: int| #[trigger] shape_props(gs, w, h) ==> rc_outcome(gs, w, h, r),
{
    assert forall|w: int, h: int| #[trigger] shape_props(gs, w, h) implies rc_outcome(
        gs,
        w,
        h,
        r,
    ) by {
        lemma_shape_unique(gs, w, h, w0, h0);
    }
}

/// A planned contingency test: the region, the statistic, its degrees of
/// freedom, and the cumulative query whose upper tail is the p-value.
#[derive(Clone, Copy, PartialEq, Eq, Structural, Debug)]
pub struct RcPlan {
    pub width: usize,
    pub height: usize,
    pub statistic: Fx,
    pub freedom: usize,
    pub query: Query,
}

/// Whether every logical cell of the `w` by `h` region is present and
/// filled.
pub open spec fn region_complete(g: Seq<Seq<Option<Fx>>>, w: int, h: int) -> bool {
    &&& h <= g.len()
    &&& forall|i: int| 0 <= i < h ==> w <= (#[trigger] g[i]).len()
    &&& forall|i: int, j: int| 0 <= i < h && 0 <= j < w ==> (#[trigger] g[i][j]) is Some
}

/// Plans the contingency test of the filled region: checks that the
/// region is complete and nonempty, sums the margins, and computes the
/// statistic and its degrees of freedom. The p-value is the upper tail of
/// the returned query's answer. For the region's shape: an incomplete
/// region is the incomplete-table error, an empty complete one is the
/// too-small error, and a complete region whose arithmetic is in range
/// ([`rc_ok`]) is owed a plan.
pub fn rc_test_plan(g: &Vec<Vec<Option<Fx>>>) -> (r: Result<RcPlan, SolveError>)
    ensures
        forall|w: int, h: int|
            #[trigger] shape_props(grid_view(g@), w, h) ==> rc_outcome(
                grid_view(g@),
                w,
                h,
                r,
            ),
        r matches Ok(plan) ==> {
            &&& 1 <= plan.width
            &&& 1 <= plan.height
            &&& region_complete(grid_view(g@), plan.width as int, plan.height as int)
            &&& forall|i: int, j: int|
                0 <= i < g@.len() && 0 <= j < g@[i]@.len() && g@[i]@[j] is Some ==> j
                    < plan.width && i < plan.height
            &&& grand_total(grid_view(g@), plan.width as int, plan.height as int) != 0
            &&& plan.statistic.raw == rc_stat(
                grid_view(g@),
                plan.height as int,
                plan.width as int,
                plan.height as int,
            )
            &&& plan.freedom == (plan.width - 1) * (plan.height - 1)
            &&& plan.freedom >= 1
            &&& plan.query == Query::Cdf(
                DistParams::ChiSquare { freedom: Fx { raw: (plan.freedom * (SCALE as int)) as i64 } },
                plan.statistic,
            )
        },
{
    let ghost gs = grid_view(g@);
    proof {
        assert(gs.len() == g@.len());
        assert(forall|i: int| 0 <= i < g@.len() ==> #[trigger] gs[i] == g@[i]@);
    }
    let (w, h) = get_fill_shape(g);
    proof {
        assert(shape_props(gs, w as int, h as int));
    }
    let mut i: usize = 0;
    while i < h
        invariant
            gs == grid_view(g@),
            0 <= i <= h <= g@.len(),
            gs.len() == g@.len(),
            forall|k: int| 0 <= k < gs.len() ==> #[trigger] gs[k] == g@[k]@,
            shape_props(gs, w as int, h as int),
            forall|k: int| 0 <= k < i ==> w <= (#[trigger] g@[k]@).len(),
        decreases h - i,
    {
        if g[i].len() < w {
            proof {
                assert(gs[i as int] == g@[i as int]@);
                assert(!region_complete(gs, w as int, h as int));
                lemma_rc_outcome_all(
                    gs,
                    w as int,
                    h as int,
                    Err::<RcPlan, SolveError>(SolveError::IncompleteTable),
                );
            }
            return Err(SolveError::IncompleteTable);
        }
        i = i + 1;
    }
    if !get_all_fill(g, (w, h)) {
        proof {
            let (bi, bj) = choose|bi: int, bj: int|
                0 <= bi < g@.len() && bi < h && 0 <= bj < g@[bi]@.len() && bj < w && !((
                g@[bi]@[bj]) is Some);
            assert(gs[bi] == g@[bi]@);
            assert(!region_complete(gs, w as int, h as int));
            lemma_rc_outcome_all(
                gs,
                w as int,
                h as int,
                Err::<RcPlan, SolveError>(SolveError::IncompleteTable),
            );
        }
        return Err(SolveError::IncompleteTable);
    }
    if w < 1 || h < 1 {
        proof {
            assert(w == 0 && h == 0);
            assert(region_complete(gs, w as int, h as int));
            lemma_rc_outcome_all(
                gs,
                w as int,
                h as int,
                Err::<RcPlan, SolveError>(SolveError::TableTooSmall),
            );
        }
        return Err(SolveError::TableTooSmall);
    }
    proof {
        assert(region_complete(gs, w as int, h as int));
    }
    // Row sums over the region.
    let mut row_sums: Vec<Fx> = Vec::new();
    let mut i: usize = 0;
    while i < h
        invariant
            gs == grid_view(g@),
            0 <= i <= h,
            region_complete(gs, w as int, h as int),
            shape_props(gs, w as int, h as int),
            gs.len() == g@.len(),
            forall|k: int| 0 <= k < gs.len() ==> #[trigger] gs[k] == g@[k]@,
            h <= g@.len(),
            1 <= w,
            row_sums@.len() == i,
            forall|k: int|
                0 <= k < i ==> (#[trigger] row_sums@[k]).raw == row_total(gs, k, w as int),
        decreases h - i,
    {
        let mut acc = Fx::zero();
        let mut j: usize = 0;
        while j < w
            invariant
                gs == grid_view(g@),
                0 <= j <= w,
                0 <= i < h,
                region_complete(gs, w as int, h as int),
                shape_props(gs, w as int, h as int),
                gs.len() == g@.len(),
                forall|k: int| 0 <= k < gs.len() ==> #[trigger] gs[k] == g@[k]@,
                h <= g@.len(),
                1 <= w,
                acc.raw == row_total(gs, i as int, j as int),
            decreases w - j,
        {
            proof {
                assert(gs[i as int] == g@[i as int]@);
                assert(w <= gs[i as int].len());
            }
            let v = match g[i][j] {
                Some(v) => v,
                None => {
                    proof {
                        assert(gs[i as int][j as int] is Some);
                        assert(false);
                    }
                    return Err(SolveError::IncompleteTable);
                },
            };
            acc = match acc.try_add(v) {
                Some(a) => a,
                None => {
                    proof {
                        assert(row_total(gs, i as int, j + 1) == acc.raw + v.raw);
                        assert(!row_in_range(gs, i as int, j + 1));
                        lemma_row_range_extends(gs, i as int, j + 1, w as int);
                        assert(!rc_ok(gs, w as int, h as int)) by {
                            if rc_ok(gs, w as int, h as int) {
                                assert(row_in_range(gs, i as int, w as int));
                            }
                        }
                        lemma_rc_outcome_all(
                            gs,
                            w as int,
                            h as int,
                            Err::<RcPlan, SolveError>(SolveError::OutOfRange),
                        );
                    }
                    return Err(SolveError::OutOfRange);
                },
            };
            j = j + 1;
        }
        row_sums.push(acc);
        i = i + 1;
    }
    // Column sums over the region.
    let mut col_sums: Vec<Fx> = Vec::new();
    let mut j: usize = 0;
    while j < w
        invariant
            gs == grid_view(g@),
            0 <= j <= w,
            region_complete(gs, w as int, h as int),
            shape_props(gs, w as int, h as int),
            gs.len() == g@.len(),
            forall|k: int| 0 <= k < gs.len() ==> #[trigger] gs[k] == g@[k]@,
            h <= g@.len(),
            1 <= h,
            1 <= w,
            col_sums@.len() == j,
            forall|k: int|
                0 <= k < j ==> (#[trigger] col_sums@[k]).raw == col_total(gs, k, h as int),
        decreases w - j,
    {
        let mut acc = Fx::zero();
        let mut i2: usize = 0;
        while i2 < h
            invariant
                gs == grid_view(g@),
                0 <= i2 <= h,
                0 <= j < w,
                region_complete(gs, w as int, h as int),
                shape_props(gs, w as int, h as int),
                gs.len() == g@.len(),
                forall|k: int| 0 <= k < gs.len() ==> #[trigger] gs[k] == g@[k]@,
                h <= g@.len(),
                1 <= w,
                acc.raw == col_total(gs, j as int, i2 as int),
            decreases h - i2,
        {
            proof {
                assert(gs[i2 as int] == g@[i2 as int]@);
                assert(w <= gs[i2 as int].len());
            }
            let v = match g[i2][j] {
                Some(v) => v,
                None => {
                    proof {
                        assert(gs[i2 as int][j as int] is Some);
                        assert(false);
                    }
                    return Err(SolveError::IncompleteTable);
                },
            };
            acc = match acc.try_add(v) {
                Some(a) => a,
                None => {
                    proof {
                        assert(col_total(gs, j as int, i2 + 1) == acc.raw + v.raw);
                        assert(!col_in_range(gs, j as int, i2 + 1));
                        lemma_col_range_extends(gs, j as int, i2 + 1, h as int);
                        assert(!rc_ok(gs, w as int, h as int)) by {
                            if rc_ok(gs, w as int, h as int) {
                                assert(col_in_range(gs, j as int, h as int));
                            }
                        }
                        lemma_rc_outcome_all(
                            gs,
                            w as int,
                            h as int,
                            Err::<RcPlan, SolveError>(SolveError::OutOfRange),
                        );
                    }
                    return Err(SolveError::OutOfRange);
                },
            };
            i2 = i2 + 1;
        }
        col_sums.push(acc);
        j = j + 1;
    }
    // Grand total.
    let mut total = Fx::zero();
    let mut i: usize = 0;
    while i < h
        invariant
            gs == grid_view(g@),
            0 <= i <= h,
            region_complete(gs, w as int, h as int),
            shape_props(gs, w as int, h as int),
            1 <= w,
            row_sums@.len() == h,
            forall|k: int|
                0 <= k < h ==> (#[trigger] row_sums@[k]).raw == row_total(gs, k, w as int),
            total.raw == grand_total(gs, w as int, i as int),
        decreases h - i,
    {
        total = match total.try_add(row_sums[i]) {
            Some(t) => t,
            None => {
                proof {
                    assert(grand_total(gs, w as int, i + 1) == total.raw
                        + row_sums@[i as int].raw);
                    assert(!grand_in_range(gs, w as int, i + 1));
                    lemma_grand_range_extends(gs, w as int, i + 1, h as int);
                    lemma_rc_outcome_all(
                        gs,
                        w as int,
                        h as int,
                        Err::<RcPlan, SolveError>(SolveError::OutOfRange),
                    );
                }
                return Err(SolveError::OutOfRange);
            },
        };
        i = i + 1;
    }
    if total.is_zero() {
        proof {
            lemma_rc_outcome_all(
                gs,
                w as int,
                h as int,
                Err::<RcPlan, SolveError>(SolveError::OutOfRange),
            );
        }
        return Err(SolveError::OutOfRange);
    }
    // The statistic.
    let mut stat = Fx::zero();
    let mut i: usize = 0;
    while i < h
        invariant
            gs == grid_view(g@),
            0 <= i <= h,
            1 <= w,
            region_complete(gs, w as int, h as int),
            shape_props(gs, w as int, h as int),
            gs.len() == g@.len(),
            forall|k: int| 0 <= k < gs.len() ==> #[trigger] gs[k] == g@[k]@,
            h <= g@.len(),
            row_sums@.len() == h,
            col_sums@.len() == w,
            forall|k: int|
                0 <= k < h ==> (#[trigger] row_sums@[k]).raw == row_total(gs, k, w as int),
            forall|k: int|
                0 <= k < w ==> (#[trigger] col_sums@[k]).raw == col_total(gs, k, h as int),
            total.raw == grand_total(gs, w as int, h as int),
            total.raw != 0,
            stat.raw == rc_stat(gs, i as int, w as int, h as int),
        decreases h - i,
    {
        let mut racc = Fx::zero();
        let mut j: usize = 0;
        while j < w
            invariant
                gs == grid_view(g@),
                0 <= j <= w,
                0 <= i < h,
                1 <= w,
                region_complete(gs, w as int, h as int),
                shape_props(gs, w as int, h as int),
                gs.len() == g@.len(),
                forall|k: int| 0 <= k < gs.len() ==> #[trigger] gs[k] == g@[k]@,
                h <= g@.len(),
                row_sums@.len() == h,
                col_sums@.len() == w,
                forall|k: int|
                    0 <= k < h ==> (#[trigger] row_sums@[k]).raw == row_total(gs, k, w as int),
                forall|k: int|
                    0 <= k < w ==> (#[trigger] col_sums@[k]).raw == col_total(gs, k, h as int),
                total.raw == grand_total(gs, w as int, h as int),
                total.raw != 0,
                racc.raw == rc_row_stat(gs, i as int, j as int, w as int, h as int),
            decreases w - j,
        {
            proof {
                assert((Fx { raw: grand_total(gs, w as int, h as int) as i64 }) == total);
                assert((Fx { raw: col_total(gs, j as int, h as int) as i64 })
                    == col_sums@[j as int]);
                assert((Fx { raw: row_total(gs, i as int, w as int) as i64 })
                    == row_sums@[i as int]);
            }
            let pc = match col_sums[j].try_div(total) {
                Some(x) => x,
                None => {
                    proof {
                        assert(!rc_term_ok(gs, i as int, j as int, w as int, h as int));
                        assert(!rowstat_in_range(gs, i as int, j + 1, w as int, h as int));
                        lemma_rowstat_range_extends(gs, i as int, j + 1, w as int, w as int, h as int);
                        assert(!stat_in_range(gs, i + 1, w as int, h as int));
                        lemma_stat_range_extends(gs, i + 1, h as int, w as int, h as int);
                        lemma_rc_outcome_all(
                            gs,
                            w as int,
                            h as int,
                            Err::<RcPlan, SolveError>(SolveError::OutOfRange),
                        );
                    }
                    return Err(SolveError::OutOfRange);
                },
            };
            let pr = match row_sums[i].try_div(total) {
                Some(x) => x,
                None => {
                    proof {
                        assert(!rc_term_ok(gs, i as int, j as int, w as int, h as int));
                        assert(!rowstat_in_range(gs, i as int, j + 1, w as int, h as int));
                        lemma_rowstat_range_extends(gs, i as int, j + 1, w as int, w as int, h as int);
                        assert(!stat_in_range(gs, i + 1, w as int, h as int));
                        lemma_stat_range_extends(gs, i + 1, h as int, w as int, h as int);
                        lemma_rc_outcome_all(
                            gs,
                            w as int,
                            h as int,
                            Err::<RcPlan, SolveError>(SolveError::OutOfRange),
                        );
                    }
                    return Err(SolveError::OutOfRange);
                },
            };
            let e1 = match total.try_mul(pc) {
                Some(x) => x,
                None => {
                    proof {
                        assert(!rc_term_ok(gs, i as int, j as int, w as int, h as int));
                        assert(!rowstat_in_range(gs, i as int, j + 1, w as int, h as int));
                        lemma_rowstat_range_extends(gs, i as int, j + 1, w as int, w as int, h as int);
                        assert(!stat_in_range(gs, i + 1, w as int, h as int));
                        lemma_stat_range_extends(gs, i + 1, h as int, w as int, h as int);
                        lemma_rc_outcome_all(
                            gs,
                            w as int,
                            h as int,
                            Err::<RcPlan, SolveError>(SolveError::OutOfRange),
                        );
                    }
                    return Err(SolveError::OutOfRange);
                },
            };
            let e = match e1.try_mul(pr) {
                Some(x) => x,
                None => {
                    proof {
                        assert(!rc_term_ok(gs, i as int, j as int, w as int, h as int));
                        assert(!rowstat_in_range(gs, i as int, j + 1, w as int, h as int));
                        lemma_rowstat_range_extends(gs, i as int, j + 1, w as int, w as int, h as int);
                        assert(!stat_in_range(gs, i + 1, w as int, h as int));
                        lemma_stat_range_extends(gs, i + 1, h as int, w as int, h as int);
                        lemma_rc_outcome_all(
                            gs,
                            w as int,
                            h as int,
                            Err::<RcPlan, SolveError>(SolveError::OutOfRange),
                        );
                    }
                    return Err(SolveError::OutOfRange);
                },
            };
            proof {
                assert(gs[i as int] == g@[i as int]@);
                assert(w <= gs[i as int].len());
            }
            let o = match g[i][j] {
                Some(v) => v,
                None => {
                    proof {
                        assert(gs[i as int][j as int] is Some);
                        assert(false);
                    }
                    return Err(SolveError::IncompleteTable);
                },
            };
            proof {
                assert((Fx { raw: cell(gs, i as int, j as int) as i64 }) == o);
            }
            let d = match e.try_sub(o) {
                Some(x) => x,
                None => {
                    proof {
                        assert(!rc_term_ok(gs, i as int, j as int, w as int, h as int));
                        assert(!rowstat_in_range(gs, i as int, j + 1, w as int, h as int));
                        lemma_rowstat_range_extends(gs, i as int, j + 1, w as int, w as int, h as int);
                        assert(!stat_in_range(gs, i + 1, w as int, h as int));
                        lemma_stat_range_extends(gs, i + 1, h as int, w as int, h as int);
                        lemma_rc_outcome_all(
                            gs,
                            w as int,
                            h as int,
                            Err::<RcPlan, SolveError>(SolveError::OutOfRange),
                        );
                    }
                    return Err(SolveError::OutOfRange);
                },
            };
            let sq = match d.try_mul(d) {
                Some(x) => x,
                None => {
                    proof {
                        assert(!rc_term_ok(gs, i as int, j as int, w as int, h as int));
                        assert(!rowstat_in_range(gs, i as int, j + 1, w as int, h as int));
                        lemma_rowstat_range_extends(gs, i as int, j + 1, w as int, w as int, h as int);
                        assert(!stat_in_range(gs, i + 1, w as int, h as int));
                        lemma_stat_range_extends(gs, i + 1, h as int, w as int, h as int);
                        lemma_rc_outcome_all(
                            gs,
                            w as int,
                            h as int,
                            Err::<RcPlan, SolveError>(SolveError::OutOfRange),
                        );
                    }
                    return Err(SolveError::OutOfRange);
                },
            };
            let term = match sq.try_div(e) {
                Some(x) => x,
                None => {
                    proof {
                        assert(!rc_term_ok(gs, i as int, j as int, w as int, h as int));
                        assert(!rowstat_in_range(gs, i as int, j + 1, w as int, h as int));
                        lemma_rowstat_range_extends(gs, i as int, j + 1, w as int, w as int, h as int);
                        assert(!stat_in_range(gs, i + 1, w as int, h as int));
                        lemma_stat_range_extends(gs, i + 1, h as int, w as int, h as int);
                        lemma_rc_outcome_all(
                            gs,
                            w as int,
                            h as int,
                            Err::<RcPlan, SolveError>(SolveError::OutOfRange),
                        );
                    }
                    return Err(SolveError::OutOfRange);
                },
            };
            racc = match racc.try_add(term) {
                Some(x) => x,
                None => {
                    proof {
                        assert(rc_row_stat(gs, i as int, j + 1, w as int, h as int) == racc.raw
                            + term.raw);
                        assert(!rowstat_in_range(gs, i as int, j + 1, w as int, h as int));
                        lemma_rowstat_range_extends(gs, i as int, j + 1, w as int, w as int, h as int);
                        assert(!stat_in_range(gs, i + 1, w as int, h as int));
                        lemma_stat_range_extends(gs, i + 1, h as int, w as int, h as int);
                        lemma_rc_outcome_all(
                            gs,
                            w as int,
                            h as int,
                            Err::<RcPlan, SolveError>(SolveError::OutOfRange),
                        );
                    }
                    return Err(SolveError::OutOfRange);
                },
            };
            j = j + 1;
        }
        stat = match stat.try_add(racc) {
            Some(x) => x,
            None => {
                proof {
                    assert(rc_stat(gs, i + 1, w as int, h as int) == stat.raw + racc.raw);
                    assert(!stat_in_range(gs, i + 1, w as int, h as int));
                    lemma_stat_range_extends(gs, i + 1, h as int, w as int, h as int);
                    lemma_rc_outcome_all(
                        gs,
                        w as int,
                        h as int,
                        Err::<RcPlan, SolveError>(SolveError::OutOfRange),
                    );
                }
                return Err(SolveError::OutOfRange);
            },
        };
        i = i + 1;
    }
    let free = match (w - 1).checked_mul(h - 1) {
        Some(f) => f,
        None => {
            proof {
                lemma_rc_outcome_all(
                    gs,
                    w as int,
                    h as int,
                    Err::<RcPlan, SolveError>(SolveError::OutOfRange),
                );
            }
            return Err(SolveError::OutOfRange);
        },
    };
    if free == 0 {
        proof {
            assert(w - 1 == 0 || h - 1 == 0) by (nonlinear_arith)
                requires
                    ((w - 1) as int) * ((h - 1) as int) == 0,
                    w >= 1,
                    h >= 1,
            ;
            lemma_rc_outcome_all(
                gs,
                w as int,
                h as int,
                Err::<RcPlan, SolveError>(SolveError::NotValidChiSquared),
            );
        }
        return Err(SolveError::NotValidChiSquared);
    }
    let free_fx = match Fx::from_usize(free) {
        Some(f) => f,
        None => {
            proof {
                lemma_rc_outcome_all(
                    gs,
                    w as int,
                    h as int,
                    Err::<RcPlan, SolveError>(SolveError::NotValidChiSquared),
                );
            }
            return Err(SolveError::NotValidChiSquared);
        },
    };
    let plan = RcPlan {
        width: w,
        height: h,
        statistic: stat,
        freedom: free,
        query: Query::Cdf(DistParams::ChiSquare { freedom: free_fx }, stat),
    };
    proof {
        lemma_rc_outcome_all(gs, w as int, h as int, Ok::<RcPlan, SolveError>(plan));
    }
    Ok(plan)
}

} // verus!
