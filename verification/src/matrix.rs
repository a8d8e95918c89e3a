//! The feature matrix and its builder.
//!
//! A matrix is built once from raw nested input, validated to be
//! rectangular, and stored row-major in a single flat buffer so that the
//! layout handed to later stages is deterministic. Entries are IEEE-754
//! double bit patterns; the core never interprets them numerically.

use vstd::prelude::*;
use crate::error::ShapeError;

verus! {

/// Position of entry `(i, j)` in a row-major buffer of width `cols`.
proof fn lemma_row_major(i: int, j: int, rows: int, cols: int)
    by (nonlinear_arith)
    requires
        0 <= i,
        i < rows,
        0 <= j,
        j < cols,
    ensures
        0 <= i * cols + j,
        i * cols + j < rows * cols,
{
}

/// An owned, rectangular, row-major matrix of scalar bit patterns.
///
/// Invariant: at least one row, at least one column, and the flat buffer
/// holds exactly `rows * cols` entries. The matrix is immutable after
/// construction; stages that transform it produce a new matrix.
#[derive(Debug, PartialEq, Eq)]
pub struct FeatureMatrix {
    rows: usize,
    cols: usize,
    data: Vec<u64>,
}

impl View for FeatureMatrix {
    type V = Seq<Seq<u64>>;

    /// The matrix as a sequence of rows.
    closed spec fn view(&self) -> Seq<Seq<u64>> {
        Seq::new(
            self.rows as nat,
            |i: int| Seq::new(self.cols as nat, |j: int| self.data@[i * (self.cols as int) + j]),
        )
    }
}

impl FeatureMatrix {
    /// Well-formedness: the shape fields agree with the flat buffer.
    pub closed spec fn wf(self) -> bool {
        &&& self.rows >= 1
        &&& self.cols >= 1
        &&& self.data@.len() == self.rows * self.cols
    }

    /// The sample count.
    pub fn rows(&self) -> (r: usize)
        ensures
            r == self@.len(),
    {
        self.rows
    }

    /// The feature count.
    pub fn cols(&self) -> (r: usize)
        requires
            self.wf(),
        ensures
            self@.len() >= 1 && r == self@[0].len(),
            forall|i: int| 0 <= i < self@.len() ==> #[trigger] self@[i].len() == r,
    {
        self.cols
    }

    /// The entry in row `i`, column `j`.
    pub fn entry(&self, i: usize, j: usize) -> (r: u64)
        requires
            self.wf(),
            i < self@.len(),
            j < self@[i as int].len(),
        ensures
            r == self@[i as int][j as int],
    {
        proof {
            assert(self@.len() == self.rows as nat);
            assert(self@[i as int].len() == self.cols as nat);
            assert(self.data.len() == self.data@.len());
            lemma_row_major(i as int, j as int, self.rows as int, self.cols as int);
        }
        self.data[i * self.cols + j]
    }

    /// An equivalent copy of the matrix, entry for entry.
    pub fn duplicate(&self) -> (r: FeatureMatrix)
        requires
            self.wf(),
        ensures
            r.wf(),
            r@ == self@,
    {
        let mut data: Vec<u64> = Vec::new();
        let n = self.data.len();
        for k in 0..n
            invariant
                n == self.data@.len(),
                data@.len() == k,
                forall|t: int| 0 <= t < k ==> data@[t] == self.data@[t],
        {
            data.push(self.data[k]);
        }
        proof {
            assert(data@ =~= self.data@);
        }
        let m = FeatureMatrix { rows: self.rows, cols: self.cols, data };
        proof {
            assert forall|i: int| 0 <= i < m@.len() implies m@[i] =~= self@[i] by {
            }
            assert(m@ =~~= self@);
        }
        m
    }

    /// A copy of row `i`, in column order.
    pub fn row(&self, i: usize) -> (r: Vec<u64>)
        requires
            self.wf(),
            i < self@.len(),
        ensures
            r@ == self@[i as int],
    {
        let mut out: Vec<u64> = Vec::new();
        let cols = self.cols;
        for j in 0..cols
            invariant
                self.wf(),
                cols == self.cols,
                i < self@.len(),
                out@.len() == j,
                forall|k: int| 0 <= k < j ==> out@[k] == self@[i as int][k],
        {
            let e = self.entry(i, j);
            out.push(e);
        }
        proof {
            assert(out@ =~= self@[i as int]);
        }
        out
    }
}

/// Whether the nested input is a valid rectangular matrix: at least one
/// row, a non-empty first row, and every row of the first row's length.
pub open spec fn valid_nested(raw: Seq<Seq<u64>>) -> bool {
    &&& raw.len() >= 1
    &&& raw[0].len() >= 1
    &&& forall|i: int| 0 <= i < raw.len() ==> #[trigger] raw[i].len() == raw[0].len()
}

/// Builds a validated rectangular matrix from raw nested input.
///
/// The rows are stored in input order, each row in input order, so the
/// same nested input always yields the same internal layout.
pub fn build(raw: &Vec<Vec<u64>>) -> (r: Result<FeatureMatrix, ShapeError>)
    ensures
        match r {
            Ok(m) => {
                &&& valid_nested(raw.deep_view())
                &&& m.wf()
                &&& m@ == raw.deep_view()
                &&& m@.len() == raw@.len()
                &&& m@.len() >= 1 && m@[0].len() == raw@[0]@.len()
            },
            Err(ShapeError::EmptyMatrix) => raw@.len() == 0,
            Err(ShapeError::EmptyRow) => raw@.len() >= 1 && raw@[0]@.len() == 0,
            Err(ShapeError::RaggedRow) => {
                &&& raw@.len() >= 1
                &&& raw@[0]@.len() >= 1
                &&& exists|i: int| 0 <= i < raw@.len() && #[trigger] raw@[i]@.len() != raw@[0]@.len()
            },
            Err(ShapeError::CoefficientCountMismatch) => false,
        },
{
    if raw.len() == 0 {
        return Err(ShapeError::EmptyMatrix);
    }
    let rows = raw.len();
    let cols = raw[0].len();
    if cols == 0 {
        return Err(ShapeError::EmptyRow);
    }
    let mut i: usize = 0;
    while i < rows
        invariant
            rows == raw@.len(),
            cols == raw@[0]@.len(),
            cols >= 1,
            i <= rows,
            forall|k: int| 0 <= k < i ==> #[trigger] raw@[k]@.len() == cols,
        decreases rows - i,
    {
        if raw[i].len() != cols {
            proof {
                assert(0 <= i as int && i < raw@.len() && raw@[i as int]@.len() != raw@[0]@.len());
            }
            return Err(ShapeError::RaggedRow);
        }
        i = i + 1;
    }
    let mut data: Vec<u64> = Vec::new();
    let mut r: usize = 0;
    while r < rows
        invariant
            rows == raw@.len(),
            cols == raw@[0]@.len(),
            cols >= 1,
            forall|k: int| 0 <= k < rows ==> #[trigger] raw@[k]@.len() == cols,
            r <= rows,
            data@.len() == r * cols,
            forall|a: int, b: int|
                0 <= a < r && 0 <= b < cols ==> #[trigger] data@[a * (cols as int) + b] == raw@[a]@[b],
        decreases rows - r,
    {
        let mut c: usize = 0;
        while c < cols
            invariant
                rows == raw@.len(),
                cols == raw@[0]@.len(),
                cols >= 1,
                forall|k: int| 0 <= k < rows ==> #[trigger] raw@[k]@.len() == cols,
                r < rows,
                c <= cols,
                data@.len() == r * cols + c,
                forall|a: int, b: int|
                    0 <= a < r && 0 <= b < cols ==> #[trigger] data@[a * (cols as int) + b] == raw@[a]@[b],
                forall|b: int| 0 <= b < c ==> #[trigger] data@[r * (cols as int) + b] == raw@[r as int]@[b],
            decreases cols - c,
        {
            data.push(raw[r][c]);
            proof {
                assert forall|a: int, b: int| 0 <= a < r && 0 <= b < cols implies
                    data@[a * (cols as int) + b] == #[trigger] raw@[a]@[b] by {
                    assert(0 <= a * (cols as int) + b && a * (cols as int) + b < (r as int) * (cols as int) + c)
                        by (nonlinear_arith)
                        requires
                            0 <= a,
                            a < r,
                            0 <= b,
                            b < cols,
                            0 <= c,
                    ;
                }
            }
            c = c + 1;
        }
        proof {
            assert((r + 1) * (cols as int) == r * (cols as int) + cols) by (nonlinear_arith);
        }
        r = r + 1;
    }
    let m = FeatureMatrix { rows, cols, data };
    proof {
        assert(m.wf());
        assert forall|a: int| 0 <= a < rows implies m@[a] =~= raw.deep_view()[a] by {
            assert forall|b: int| 0 <= b < cols implies m@[a][b] == raw@[a]@[b] by {
                lemma_row_major(a, b, rows as int, cols as int);
                assert(data@[a * (cols as int) + b] == raw@[a]@[b]);
            }
        }
        assert(m@ =~~= raw.deep_view());
    }
    Ok(m)
}

} // verus!
