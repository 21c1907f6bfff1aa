//! The dense matrix: construction, dimension and data queries, element-wise
//! addition and matrix multiplication, with the algebraic laws the
//! operations obey.

use vstd::prelude::*;
use crate::num::Number;
use crate::text::dec_digits;
use crate::text::usize_text;
use vstd::string::StringExecFns;

verus! {

/// Why a matrix operation was refused.
#[derive(Debug)]
pub enum MatrixError {
    /// The operands' shapes do not fit the operation; the message names
    /// the offending dimensions.
    InvalidDimensions(String),
    /// A data-literal construction was handed no rows, or an empty first row.
    EmptyMatrix,
}

/// A dense, rectangular, immutable-after-construction grid of elements,
/// stored row-major. A well-formed matrix has at least one row and one
/// column, and every row of `data` has length exactly `cols`.
#[derive(Debug, Clone, PartialEq)]
pub struct Matrix<T: Number> {
    pub rows: usize,
    pub cols: usize,
    pub data: Vec<Vec<T>>,
}

impl<T: Number> View for Matrix<T> {
    type V = Seq<Seq<T>>;

    open spec fn view(&self) -> Seq<Seq<T>> {
        Seq::new(self.data@.len(), |i: int| self.data@[i]@)
    }
}

/// A rectangular grid of the given dimensions, both positive.
pub open spec fn grid_wf<T>(g: Seq<Seq<T>>, rows: nat, cols: nat) -> bool {
    &&& rows >= 1
    &&& cols >= 1
    &&& g.len() == rows
    &&& forall|i: int| 0 <= i < g.len() ==> (#[trigger] g[i]).len() == cols
}

/// The all-zero grid of the given dimensions.
pub open spec fn zero_grid<T: Number>(rows: nat, cols: nat) -> Seq<Seq<T>> {
    Seq::new(rows, |i: int| Seq::new(cols, |j: int| T::spec_zero()))
}

/// The identity grid: ones on the diagonal, zeros elsewhere.
pub open spec fn identity_grid<T: Number>(n: nat) -> Seq<Seq<T>> {
    Seq::new(
        n,
        |i: int| Seq::new(n, |j: int| if i == j { T::spec_one() } else { T::spec_zero() }),
    )
}

/// The element-wise sum of two grids of equal shape.
pub open spec fn mat_add<T: Number>(a: Seq<Seq<T>>, b: Seq<Seq<T>>) -> Seq<Seq<T>> {
    Seq::new(a.len(), |i: int| Seq::new(a[i].len(), |j: int| a[i][j].spec_plus(b[i][j])))
}

/// Every element-wise addition of `a + b` is defined.
pub open spec fn add_compatible<T: Number>(a: Seq<Seq<T>>, b: Seq<Seq<T>>) -> bool {
    forall|i: int, j: int|
        0 <= i < a.len() && 0 <= j < a[i].len() ==> (#[trigger] a[i][j]).add_ok(b[i][j])
}

/// The first `n` terms of the inner product of `a` and `b`, accumulated in
/// index order starting from zero: `((0 + a[0]*b[0]) + a[1]*b[1]) + ...`.
pub open spec fn dot<T: Number>(a: Seq<T>, b: Seq<T>, n: int) -> T
    decreases n,
{
    if n <= 0 {
        T::spec_zero()
    } else {
        dot(a, b, n - 1).spec_plus(a[n - 1].spec_times(b[n - 1]))
    }
}

/// Every product and every accumulation step of `dot(a, b, n)` is defined.
pub open spec fn dot_ok<T: Number>(a: Seq<T>, b: Seq<T>, n: int) -> bool
    decreases n,
{
    n <= 0 || {
        &&& dot_ok(a, b, n - 1)
        &&& a[n - 1].mul_ok(b[n - 1])
        &&& dot(a, b, n - 1).add_ok(a[n - 1].spec_times(b[n - 1]))
    }
}

/// Column `j` of a grid, as a sequence.
pub open spec fn col_seq<T>(g: Seq<Seq<T>>, j: int) -> Seq<T> {
    Seq::new(g.len(), |k: int| g[k][j])
}

/// The matrix product of two grids with matching inner dimension.
pub open spec fn mat_mul<T: Number>(a: Seq<Seq<T>>, b: Seq<Seq<T>>) -> Seq<Seq<T>> {
    Seq::new(
        a.len(),
        |i: int|
            Seq::new(b[0].len(), |j: int| dot(a[i], col_seq(b, j), a[i].len() as int)),
    )
}

/// Every inner product of `a * b` is defined at every accumulation step.
pub open spec fn mul_compatible<T: Number>(a: Seq<Seq<T>>, b: Seq<Seq<T>>) -> bool {
    forall|i: int, j: int|
        0 <= i < a.len() && 0 <= j < b[0].len() ==> #[trigger] dot_ok(
            a[i],
            col_seq(b, j),
            a[i].len() as int,
        )
}

/// The text `<rows>x<cols>`, as it appears in shape-mismatch messages.
pub open spec fn dims_text(rows: nat, cols: nat) -> Seq<char> {
    dec_digits(rows) + "x"@ + dec_digits(cols)
}

/// The message refusing an addition of mismatched shapes.
pub open spec fn add_mismatch_text(r1: nat, c1: nat, r2: nat, c2: nat) -> Seq<char> {
    "Cannot add "@ + dims_text(r1, c1) + " matrix with "@ + dims_text(r2, c2) + " matrix"@
}

/// The message refusing a multiplication of mismatched shapes.
pub open spec fn mul_mismatch_text(r1: nat, c1: nat, r2: nat, c2: nat) -> Seq<char> {
    "Cannot multiply "@ + dims_text(r1, c1) + " matrix with "@ + dims_text(r2, c2) + " matrix"@
}

/// The grid a sequence of row vectors holds.
pub open spec fn vec_grid<T>(data: Seq<Vec<T>>) -> Seq<Seq<T>> {
    Seq::new(data.len(), |i: int| data[i]@)
}

/// The least row index at or after `k` whose length differs from `cols`,
/// or `g.len()` when every row from `k` on has length `cols`.
pub open spec fn first_mismatch<T>(g: Seq<Seq<T>>, cols: nat, k: int) -> int
    decreases g.len() - k,
{
    if k < 0 || k >= g.len() {
        g.len() as int
    } else if g[k].len() != cols {
        k
    } else {
        first_mismatch(g, cols, k + 1)
    }
}

/// The message refusing ragged row data: it names the first offending row,
/// its length, and the length the first row set.
pub open spec fn ragged_rows_text(row: nat, found: nat, expected: nat) -> Seq<char> {
    "All rows must have the same length: row "@ + dec_digits(row) + " has length "@ + dec_digits(
        found,
    ) + ", expected "@ + dec_digits(expected)
}

/// The message refusing a zero-filled construction: it names the requested
/// dimensions.
pub open spec fn zeros_err_text(rows: nat, cols: nat) -> Seq<char> {
    "Dimensions must be positive: got "@ + dims_text(rows, cols)
}

/// Builds `<verb><r1>x<c1> matrix with <r2>x<c2> matrix`.
fn shape_mismatch_message(verb: &str, r1: usize, c1: usize, r2: usize, c2: usize) -> (r: String)
    ensures
        r@ == verb@ + dims_text(r1 as nat, c1 as nat) + " matrix with "@ + dims_text(
            r2 as nat,
            c2 as nat,
        ) + " matrix"@,
{
    let mut s = String::new();
    s.append(verb);
    let t1 = usize_text(r1);
    s.append(t1.as_str());
    s.append("x");
    let t2 = usize_text(c1);
    s.append(t2.as_str());
    s.append(" matrix with ");
    let t3 = usize_text(r2);
    s.append(t3.as_str());
    s.append("x");
    let t4 = usize_text(c2);
    s.append(t4.as_str());
    s.append(" matrix");
    proof {
        assert(s@ =~= verb@ + dims_text(r1 as nat, c1 as nat) + " matrix with "@ + dims_text(
            r2 as nat,
            c2 as nat,
        ) + " matrix"@);
    }
    s
}

impl<T: Number> Matrix<T> {
    /// All structural invariants of a matrix hold.
    pub open spec fn wf(&self) -> bool {
        &&& grid_wf(self@, self.rows as nat, self.cols as nat)
        &&& self.data@.len() == self.rows
    }

    /// Creates a matrix from explicit row data.
    ///
    /// Succeeds exactly when the data is non-empty, its first row is
    /// non-empty, and all rows have equal length; the matrix then holds the
    /// rows unchanged. Fails with `EmptyMatrix` on missing rows or an empty
    /// first row, and with `InvalidDimensions` on ragged rows, naming the
    /// first offending row and the two row lengths in the message.
    pub fn new(data: Vec<Vec<T>>) -> (r: Result<Matrix<T>, MatrixError>)
        ensures
            match r {
                Ok(m) => {
                    &&& data@.len() >= 1 && data@[0]@.len() >= 1
                    &&& forall|i: int|
                        0 <= i < data@.len() ==> (#[trigger] data@[i])@.len() == data@[0]@.len()
                    &&& m.wf()
                    &&& m.rows == data@.len()
                    &&& m.cols == data@[0]@.len()
                    &&& m@ == vec_grid(data@)
                },
                Err(MatrixError::EmptyMatrix) => data@.len() == 0 || data@[0]@.len() == 0,
                Err(MatrixError::InvalidDimensions(msg)) => {
                    &&& data@.len() >= 1 && data@[0]@.len() >= 1
                    &&& exists|i: int|
                        0 <= i < data@.len() && (#[trigger] data@[i])@.len() != data@[0]@.len()
                    &&& {
                        let g = vec_grid(data@);
                        let idx = first_mismatch(g, g[0].len(), 0);
                        msg@ == ragged_rows_text(idx as nat, g[idx].len(), g[0].len())
                    }
                },
            },
    {
        if data.len() == 0 {
            return Err(MatrixError::EmptyMatrix);
        }
        if data[0].len() == 0 {
            return Err(MatrixError::EmptyMatrix);
        }
        let rows: usize = data.len();
        let cols: usize = data[0].len();
        let ghost g = vec_grid(data@);
        let mut i: usize = 0;
        while i < rows
            invariant
                rows == data@.len(),
                cols == data@[0]@.len(),
                cols >= 1,
                i <= rows,
                g == vec_grid(data@),
                first_mismatch(g, cols as nat, 0) == first_mismatch(g, cols as nat, i as int),
                forall|k: int| 0 <= k < i ==> (#[trigger] data@[k])@.len() == cols,
            decreases rows - i,
        {
            if data[i].len() != cols {
                proof {
                    assert(g[i as int] == data@[i as int]@);
                    assert(first_mismatch(g, cols as nat, i as int) == i);
                }
                let mut msg = String::new();
                msg.append("All rows must have the same length: row ");
                let row_index = usize_text(i);
                msg.append(row_index.as_str());
                msg.append(" has length ");
                let found_len = usize_text(data[i].len());
                msg.append(found_len.as_str());
                msg.append(", expected ");
                let expected_len = usize_text(cols);
                msg.append(expected_len.as_str());
                proof {
                    assert(msg@ =~= ragged_rows_text(
                        i as nat,
                        g[i as int].len(),
                        cols as nat,
                    ));
                }
                return Err(MatrixError::InvalidDimensions(msg));
            }
            proof {
                assert(g[i as int] == data@[i as int]@);
                assert(first_mismatch(g, cols as nat, i as int) == first_mismatch(
                    g,
                    cols as nat,
                    i + 1,
                ));
            }
            i = i + 1;
        }
        let m = Matrix { rows, cols, data };
        proof {
            assert(m@ =~= vec_grid(m.data@));
        }
        Ok(m)
    }

    /// Creates a matrix of the given dimensions filled with zero.
    ///
    /// Succeeds exactly when both dimensions are positive; fails with
    /// `InvalidDimensions` otherwise, naming the requested dimensions in
    /// the message.
    pub fn zeros(rows: usize, cols: usize) -> (r: Result<Matrix<T>, MatrixError>)
        ensures
            match r {
                Ok(m) => {
                    &&& rows >= 1 && cols >= 1
                    &&& m.wf()
                    &&& m.rows == rows
                    &&& m.cols == cols
                    &&& m@ == zero_grid::<T>(rows as nat, cols as nat)
                },
                Err(MatrixError::InvalidDimensions(msg)) => {
                    &&& rows == 0 || cols == 0
                    &&& msg@ == zeros_err_text(rows as nat, cols as nat)
                },
                Err(MatrixError::EmptyMatrix) => false,
            },
    {
        if rows == 0 || cols == 0 {
            let mut msg = String::new();
            msg.append("Dimensions must be positive: got ");
            let row_text = usize_text(rows);
            msg.append(row_text.as_str());
            msg.append("x");
            let col_text = usize_text(cols);
            msg.append(col_text.as_str());
            proof {
                assert(msg@ =~= zeros_err_text(rows as nat, cols as nat));
            }
            return Err(MatrixError::InvalidDimensions(msg));
        }
        let mut data: Vec<Vec<T>> = Vec::new();
        let mut i: usize = 0;
        while i < rows
            invariant
                i <= rows,
                cols >= 1,
                data@.len() == i,
                forall|k: int|
                    0 <= k < i ==> (#[trigger] data@[k])@ =~= Seq::new(
                        cols as nat,
                        |j: int| T::spec_zero(),
                    ),
            decreases rows - i,
        {
            let mut row: Vec<T> = Vec::new();
            let mut j: usize = 0;
            while j < cols
                invariant
                    j <= cols,
                    row@.len() == j,
                    forall|l: int| 0 <= l < j ==> row@[l] == T::spec_zero(),
                decreases cols - j,
            {
                row.push(T::zero());
                j = j + 1;
            }
            proof {
                assert(row@ =~= Seq::new(cols as nat, |l: int| T::spec_zero()));
            }
            data.push(row);
            i = i + 1;
        }
        let m = Matrix { rows, cols, data };
        proof {
            assert(m@ =~~= zero_grid::<T>(rows as nat, cols as nat));
        }
        Ok(m)
    }

    /// Returns `(rows, cols)`.
    pub fn dimensions(&self) -> (r: (usize, usize))
        ensures
            r == (self.rows, self.cols),
    {
        (self.rows, self.cols)
    }

    /// Returns a read-only view of the underlying grid.
    pub fn data(&self) -> (r: &Vec<Vec<T>>)
        ensures
            r@ == self.data@,
    {
        &self.data
    }

    /// Element-wise sum, as a new matrix.
    ///
    /// Succeeds exactly when the shapes agree; the result is then
    /// `mat_add(self@, rhs@)`. Fails with `InvalidDimensions`, both shapes
    /// in the message, when they differ. The overflow precondition is
    /// forced by the fixed-width element types: an addition whose result
    /// the element type cannot hold has no defined sum.
    pub fn add(&self, rhs: &Matrix<T>) -> (r: Result<Matrix<T>, MatrixError>)
        requires
            self.wf(),
            rhs.wf(),
            (self.rows == rhs.rows && self.cols == rhs.cols) ==> add_compatible(self@, rhs@),
        ensures
            r is Ok <==> (self.rows == rhs.rows && self.cols == rhs.cols),
            match r {
                Ok(m) => {
                    &&& m.wf()
                    &&& m.rows == self.rows
                    &&& m.cols == self.cols
                    &&& m@ == mat_add(self@, rhs@)
                },
                Err(MatrixError::InvalidDimensions(msg)) => msg@ == add_mismatch_text(
                    self.rows as nat,
                    self.cols as nat,
                    rhs.rows as nat,
                    rhs.cols as nat,
                ),
                Err(MatrixError::EmptyMatrix) => false,
            },
    {
        if self.rows != rhs.rows || self.cols != rhs.cols {
            let msg = shape_mismatch_message("Cannot add ", self.rows, self.cols, rhs.rows, rhs.cols);
            return Err(MatrixError::InvalidDimensions(msg));
        }
        let mut data: Vec<Vec<T>> = Vec::new();
        let mut i: usize = 0;
        while i < self.rows
            invariant
                self.wf(),
                rhs.wf(),
                self.rows == rhs.rows,
                self.cols == rhs.cols,
                add_compatible(self@, rhs@),
                i <= self.rows,
                data@.len() == i,
                forall|k: int|
                    0 <= k < i ==> (#[trigger] data@[k])@ =~= mat_add(self@, rhs@)[k],
            decreases self.rows - i,
        {
            let mut row: Vec<T> = Vec::new();
            let mut j: usize = 0;
            while j < self.cols
                invariant
                    self.wf(),
                    rhs.wf(),
                    self.rows == rhs.rows,
                    self.cols == rhs.cols,
                    add_compatible(self@, rhs@),
                    i < self.rows,
                    j <= self.cols,
                    row@.len() == j,
                    forall|l: int|
                        0 <= l < j ==> row@[l] == self@[i as int][l].spec_plus(rhs@[i as int][l]),
                decreases self.cols - j,
            {
                proof {
                    assert(self@[i as int] == self.data@[i as int]@);
                    assert(rhs@[i as int] == rhs.data@[i as int]@);
                    assert(self@[i as int].len() == self.cols);
                    assert(rhs@[i as int].len() == rhs.cols);
                }
                let x = self.data[i][j];
                let y = rhs.data[i][j];
                row.push(x.add(y));
                j = j + 1;
            }
            proof {
                assert(row@ =~= mat_add(self@, rhs@)[i as int]);
            }
            data.push(row);
            i = i + 1;
        }
        let m = Matrix { rows: self.rows, cols: self.cols, data };
        proof {
            assert(m@ =~~= mat_add(self@, rhs@));
        }
        Ok(m)
    }

    /// Matrix product, as a new matrix of shape `self.rows x rhs.cols`.
    ///
    /// Succeeds exactly when `self.cols == rhs.rows`; entry `(i, j)` of the
    /// result is then the inner product of row `i` of `self` and column `j`
    /// of `rhs`, accumulated in index order. Fails with
    /// `InvalidDimensions`, both shapes in the message, otherwise. The
    /// overflow precondition is forced by the fixed-width element types.
    pub fn mul(&self, rhs: &Matrix<T>) -> (r: Result<Matrix<T>, MatrixError>)
        requires
            self.wf(),
            rhs.wf(),
            self.cols == rhs.rows ==> mul_compatible(self@, rhs@),
        ensures
            r is Ok <==> self.cols == rhs.rows,
            match r {
                Ok(m) => {
                    &&& m.wf()
                    &&& m.rows == self.rows
                    &&& m.cols == rhs.cols
                    &&& m@ == mat_mul(self@, rhs@)
                },
                Err(MatrixError::InvalidDimensions(msg)) => msg@ == mul_mismatch_text(
                    self.rows as nat,
                    self.cols as nat,
                    rhs.rows as nat,
                    rhs.cols as nat,
                ),
                Err(MatrixError::EmptyMatrix) => false,
            },
    {
        if self.cols != rhs.rows {
            let msg = shape_mismatch_message(
                "Cannot multiply ",
                self.rows,
                self.cols,
                rhs.rows,
                rhs.cols,
            );
            return Err(MatrixError::InvalidDimensions(msg));
        }
        let mut data: Vec<Vec<T>> = Vec::new();
        let mut i: usize = 0;
        while i < self.rows
            invariant
                self.wf(),
                rhs.wf(),
                self.cols == rhs.rows,
                mul_compatible(self@, rhs@),
                i <= self.rows,
                data@.len() == i,
                forall|k: int|
                    0 <= k < i ==> (#[trigger] data@[k])@ =~= mat_mul(self@, rhs@)[k],
            decreases self.rows - i,
        {
            let mut row: Vec<T> = Vec::new();
            let mut j: usize = 0;
            while j < rhs.cols
                invariant
                    self.wf(),
                    rhs.wf(),
                    self.cols == rhs.rows,
                    mul_compatible(self@, rhs@),
                    i < self.rows,
                    j <= rhs.cols,
                    row@.len() == j,
                    forall|l: int|
                        0 <= l < j ==> row@[l] == dot(
                            self@[i as int],
                            col_seq(rhs@, l),
                            self.cols as int,
                        ),
                decreases rhs.cols - j,
            {
                let mut acc: T = T::zero();
                let mut k: usize = 0;
                while k < self.cols
                    invariant
                        self.wf(),
                        rhs.wf(),
                        self.cols == rhs.rows,
                        mul_compatible(self@, rhs@),
                        i < self.rows,
                        j < rhs.cols,
                        k <= self.cols,
                        acc == dot(self@[i as int], col_seq(rhs@, j as int), k as int),
                    decreases self.cols - k,
                {
                    proof {
                        assert(self@[i as int] == self.data@[i as int]@);
                        assert(self@[i as int].len() == self.cols);
                        assert(rhs@[k as int] == rhs.data@[k as int]@);
                        assert(rhs@[k as int].len() == rhs.cols);
                        assert(dot_ok(
                            self@[i as int],
                            col_seq(rhs@, j as int),
                            self@[i as int].len() as int,
                        ));
                        lemma_dot_ok_prefix(
                            self@[i as int],
                            col_seq(rhs@, j as int),
                            self.cols as int,
                            k + 1,
                        );
                        assert(col_seq(rhs@, j as int)[k as int] == rhs@[k as int][j as int]);
                    }
                    let x = self.data[i][k];
                    let y = rhs.data[k][j];
                    acc = acc.add(x.mul(y));
                    k = k + 1;
                }
                row.push(acc);
                j = j + 1;
            }
            proof {
                assert(rhs@[0].len() == rhs.cols);
                assert(self@[i as int].len() == self.cols);
                assert(row@ =~= mat_mul(self@, rhs@)[i as int]);
            }
            data.push(row);
            i = i + 1;
        }
        let m = Matrix { rows: self.rows, cols: rhs.cols, data };
        proof {
            assert(m@ =~~= mat_mul(self@, rhs@));
        }
        Ok(m)
    }
}

/// A defined inner product is defined at every earlier step too.
pub proof fn lemma_dot_ok_prefix<T: Number>(a: Seq<T>, b: Seq<T>, n: int, k: int)
    requires
        dot_ok(a, b, n),
        k <= n,
    ensures
        dot_ok(a, b, k),
    decreases n,
{
    if k < n && n > 0 {
        lemma_dot_ok_prefix(a, b, n - 1, k);
    }
}

/// Matrix addition is commutative: `A + B == B + A`, and the one sum is
/// defined exactly when the other is.
pub proof fn lemma_mat_add_comm<T: Number>(a: Seq<Seq<T>>, b: Seq<Seq<T>>, rows: nat, cols: nat)
    requires
        grid_wf(a, rows, cols),
        grid_wf(b, rows, cols),
    ensures
        add_compatible(a, b) == add_compatible(b, a),
        mat_add(a, b) == mat_add(b, a),
{
    assert forall|i: int, j: int| 0 <= i < rows && 0 <= j < cols implies {
        &&& (#[trigger] a[i][j]).add_ok(b[i][j]) == b[i][j].add_ok(a[i][j])
        &&& a[i][j].spec_plus(b[i][j]) == b[i][j].spec_plus(a[i][j])
    } by {
        T::lemma_add_comm(a[i][j], b[i][j]);
    }
    assert(mat_add(a, b) =~~= mat_add(b, a));
    if add_compatible(a, b) {
        assert forall|i: int, j: int|
            0 <= i < b.len() && 0 <= j < b[i].len() implies (#[trigger] b[i][j]).add_ok(a[i][j]) by {
            T::lemma_add_comm(a[i][j], b[i][j]);
        }
    }
    if add_compatible(b, a) {
        assert forall|i: int, j: int|
            0 <= i < a.len() && 0 <= j < a[i].len() implies (#[trigger] a[i][j]).add_ok(b[i][j]) by {
            T::lemma_add_comm(a[i][j], b[i][j]);
        }
    }
}

/// Matrix addition is associative: `(A + B) + C == A + (B + C)`, wherever
/// every element-wise sum on both sides is defined.
pub proof fn lemma_mat_add_assoc<T: Number>(
    a: Seq<Seq<T>>,
    b: Seq<Seq<T>>,
    c: Seq<Seq<T>>,
    rows: nat,
    cols: nat,
)
    requires
        grid_wf(a, rows, cols),
        grid_wf(b, rows, cols),
        grid_wf(c, rows, cols),
        add_compatible(a, b),
        add_compatible(mat_add(a, b), c),
        add_compatible(b, c),
        add_compatible(a, mat_add(b, c)),
    ensures
        mat_add(mat_add(a, b), c) == mat_add(a, mat_add(b, c)),
{
    assert forall|i: int, j: int| 0 <= i < rows && 0 <= j < cols implies (#[trigger] a[i][j])
        .spec_plus(b[i][j]).spec_plus(c[i][j]) == a[i][j].spec_plus(
        b[i][j].spec_plus(c[i][j]),
    ) by {
        assert(mat_add(a, b)[i][j] == a[i][j].spec_plus(b[i][j]));
        assert(mat_add(b, c)[i][j] == b[i][j].spec_plus(c[i][j]));
        T::lemma_add_assoc(a[i][j], b[i][j], c[i][j]);
    }
    assert(mat_add(mat_add(a, b), c) =~~= mat_add(a, mat_add(b, c)));
}

/// The zero matrix is a two-sided additive identity, and adding it is
/// always defined.
pub proof fn lemma_mat_add_zero<T: Number>(a: Seq<Seq<T>>, rows: nat, cols: nat)
    requires
        grid_wf(a, rows, cols),
    ensures
        add_compatible(a, zero_grid::<T>(rows, cols)),
        add_compatible(zero_grid::<T>(rows, cols), a),
        mat_add(a, zero_grid::<T>(rows, cols)) == a,
        mat_add(zero_grid::<T>(rows, cols), a) == a,
{
    assert forall|i: int, j: int| 0 <= i < rows && 0 <= j < cols implies {
        &&& (#[trigger] a[i][j]).add_ok(T::spec_zero())
        &&& T::spec_zero().add_ok(a[i][j])
        &&& a[i][j].spec_plus(T::spec_zero()) == a[i][j]
        &&& T::spec_zero().spec_plus(a[i][j]) == a[i][j]
    } by {
        T::lemma_add_zero(a[i][j]);
    }
    assert(mat_add(a, zero_grid::<T>(rows, cols)) =~~= a);
    assert(mat_add(zero_grid::<T>(rows, cols), a) =~~= a);
}

/// An inner product against an all-zero prefix of `a` is zero and defined.
proof fn lemma_dot_zero_left<T: Number>(a: Seq<T>, b: Seq<T>, n: int)
    requires
        n <= a.len(),
        n <= b.len(),
        forall|k: int| 0 <= k < n ==> a[k] == T::spec_zero(),
    ensures
        dot_ok(a, b, n),
        dot(a, b, n) == T::spec_zero(),
    decreases n,
{
    if n > 0 {
        lemma_dot_zero_left(a, b, n - 1);
        T::lemma_mul_zero(b[n - 1]);
        T::lemma_add_zero(T::spec_zero());
    }
}

/// An inner product against an all-zero prefix of `b` is zero and defined.
proof fn lemma_dot_zero_right<T: Number>(a: Seq<T>, b: Seq<T>, n: int)
    requires
        n <= a.len(),
        n <= b.len(),
        forall|k: int| 0 <= k < n ==> b[k] == T::spec_zero(),
    ensures
        dot_ok(a, b, n),
        dot(a, b, n) == T::spec_zero(),
    decreases n,
{
    if n > 0 {
        lemma_dot_zero_right(a, b, n - 1);
        T::lemma_mul_zero(a[n - 1]);
        T::lemma_add_zero(T::spec_zero());
    }
}

/// The inner product of a unit vector (one at position `i`) with `b`
/// selects `b[i]`, and is defined.
proof fn lemma_dot_unit_left<T: Number>(e: Seq<T>, b: Seq<T>, i: int, n: int)
    requires
        0 <= i < n,
        n <= e.len(),
        n <= b.len(),
        forall|k: int| 0 <= k < n ==> e[k] == (if k == i { T::spec_one() } else { T::spec_zero() }),
    ensures
        dot_ok(e, b, n),
        dot(e, b, n) == b[i],
    decreases n,
{
    if n - 1 == i {
        lemma_dot_zero_left(e, b, n - 1);
        T::lemma_mul_one(b[i]);
        T::lemma_add_zero(b[i]);
    } else {
        lemma_dot_unit_left(e, b, i, n - 1);
        T::lemma_mul_zero(b[n - 1]);
        T::lemma_add_zero(b[i]);
    }
}

/// The inner product of `a` with a unit vector (one at position `j`)
/// selects `a[j]`, and is defined.
proof fn lemma_dot_unit_right<T: Number>(a: Seq<T>, e: Seq<T>, j: int, n: int)
    requires
        0 <= j < n,
        n <= a.len(),
        n <= e.len(),
        forall|k: int| 0 <= k < n ==> e[k] == (if k == j { T::spec_one() } else { T::spec_zero() }),
    ensures
        dot_ok(a, e, n),
        dot(a, e, n) == a[j],
    decreases n,
{
    if n - 1 == j {
        lemma_dot_zero_right(a, e, n - 1);
        T::lemma_mul_one(a[j]);
        T::lemma_add_zero(a[j]);
    } else {
        lemma_dot_unit_right(a, e, j, n - 1);
        T::lemma_mul_zero(a[n - 1]);
        T::lemma_add_zero(a[j]);
    }
}

/// Multiplying by the identity on the left leaves a matrix unchanged, and
/// every inner product involved is defined.
pub proof fn lemma_identity_mul_left<T: Number>(a: Seq<Seq<T>>, n: nat, cols: nat)
    requires
        grid_wf(a, n, cols),
    ensures
        mul_compatible(identity_grid::<T>(n), a),
        mat_mul(identity_grid::<T>(n), a) == a,
{
    let id = identity_grid::<T>(n);
    assert forall|i: int, j: int|
        0 <= i < id.len() && 0 <= j < a[0].len() implies #[trigger] dot_ok(
        id[i],
        col_seq(a, j),
        id[i].len() as int,
    ) by {
        lemma_dot_unit_left(id[i], col_seq(a, j), i, n as int);
    }
    assert forall|i: int, j: int| 0 <= i < n && 0 <= j < a[0].len() implies #[trigger] dot(
        id[i],
        col_seq(a, j),
        id[i].len() as int,
    ) == a[i][j] by {
        lemma_dot_unit_left(id[i], col_seq(a, j), i, n as int);
        assert(col_seq(a, j)[i] == a[i][j]);
    }
    assert(mat_mul(id, a) =~~= a);
}

/// Multiplying by the identity on the right leaves a matrix unchanged, and
/// every inner product involved is defined.
pub proof fn lemma_identity_mul_right<T: Number>(a: Seq<Seq<T>>, rows: nat, n: nat)
    requires
        grid_wf(a, rows, n),
    ensures
        mul_compatible(a, identity_grid::<T>(n)),
        mat_mul(a, identity_grid::<T>(n)) == a,
{
    let id = identity_grid::<T>(n);
    assert forall|i: int, j: int|
        0 <= i < a.len() && 0 <= j < id[0].len() implies #[trigger] dot_ok(
        a[i],
        col_seq(id, j),
        a[i].len() as int,
    ) by {
        lemma_dot_unit_right(a[i], col_seq(id, j), j, n as int);
    }
    assert forall|i: int, j: int| 0 <= i < a.len() && 0 <= j < n implies #[trigger] dot(
        a[i],
        col_seq(id, j),
        a[i].len() as int,
    ) == a[i][j] by {
        lemma_dot_unit_right(a[i], col_seq(id, j), j, n as int);
    }
    assert(mat_mul(a, id) =~~= a);
}

} // verus!
