//! Fixed-size matrix arithmetic.
//!
//! A matrix is stored as a flat vector of cells; the cell at `(row, col)`
//! lives at flat index `row + col * ROWS`.

use vstd::prelude::*;

verus! {

/// The value of the cell at `(row, col)` in a flat cell sequence whose
/// columns are `rows` entries long.
pub open spec fn cell_value<T>(data: Seq<T>, rows: int, row: int, col: int) -> T {
    data[row + col * rows]
}

/// A cell's flat index lies inside the matrix.
pub proof fn lemma_cell_index_bound(rows: int, cols: int, row: int, col: int)
    by (nonlinear_arith)
    requires
        0 <= row < rows,
        0 <= col < cols,
    ensures
        0 <= row + col * rows < rows * cols,
{
}

/// Distinct cells have distinct flat indices.
pub proof fn lemma_cell_index_injective(rows: int, r1: int, c1: int, r2: int, c2: int)
    by (nonlinear_arith)
    requires
        0 <= r1 < rows,
        0 <= r2 < rows,
        r1 + c1 * rows == r2 + c2 * rows,
    ensures
        r1 == r2,
        c1 == c2,
{
}

/// The product of the matching cells of row `y` of `a` and column `x` of
/// `b`, at position `i`: `a` has `rows_a` rows and `b` has `rows_b` rows.
pub open spec fn product_term(
    a: Seq<i64>,
    b: Seq<i64>,
    rows_a: int,
    rows_b: int,
    y: int,
    x: int,
    i: int,
) -> int {
    a[i + y * rows_a] * b[x + i * rows_b]
}

/// The sum of the first `k` products of row `y` of `a` with column `x` of
/// `b`: for `k` the full side length, the cell `(x, y)` of the matrix
/// product.
pub open spec fn product_entry(
    a: Seq<i64>,
    b: Seq<i64>,
    rows_a: int,
    rows_b: int,
    y: int,
    x: int,
    k: int,
) -> int
    decreases k,
{
    if k <= 0 {
        0
    } else {
        product_entry(a, b, rows_a, rows_b, y, x, k - 1) + product_term(
            a,
            b,
            rows_a,
            rows_b,
            y,
            x,
            k - 1,
        )
    }
}

/// A matrix with `ROWS` rows and `COLUMNS` columns.
///
/// Rows and columns represent the y and x coordinates respectively.
#[derive(Clone, PartialEq, Eq, Debug)]
pub struct Matrix<T, const ROWS: usize, const COLUMNS: usize> {
    data: Vec<T>,
}

impl<T, const ROWS: usize, const COLUMNS: usize> View for Matrix<T, ROWS, COLUMNS> {
    type V = Seq<T>;

    closed spec fn view(&self) -> Seq<T> {
        self.data@
    }
}

impl<T, const ROWS: usize, const COLUMNS: usize> Matrix<T, ROWS, COLUMNS> {
    /// Invariant: there is one cell for each position.
    pub open spec fn wf(&self) -> bool {
        self@.len() == ROWS * COLUMNS
    }

    /// Create a new matrix from its flattened cells.
    pub fn new(value: Vec<T>) -> (r: Self)
        requires
            value@.len() == ROWS * COLUMNS,
        ensures
            r.wf(),
            r@ == value@,
    {
        Matrix { data: value }
    }

    /// Get a reference to a cell, or `None` outside the bounds.
    pub fn get(&self, row: usize, col: usize) -> (r: Option<&T>)
        requires
            self.wf(),
        ensures
            row < ROWS && col < COLUMNS ==> (r matches Some(v) && *v == cell_value(
                self@,
                ROWS as int,
                row as int,
                col as int,
            )),
            !(row < ROWS && col < COLUMNS) ==> r is None,
    {
        if row >= ROWS || col >= COLUMNS {
            None
        } else {
            proof {
                lemma_cell_index_bound(ROWS as int, COLUMNS as int, row as int, col as int);
            }
            let n = self.data.len();
            Some(&self.data[row + col * ROWS])
        }
    }

    /// Get a mutable reference to a cell, or `None` outside the bounds.
    pub fn get_mut(&mut self, row: usize, col: usize) -> (r: Option<&mut T>)
        requires
            old(self).wf(),
        ensures
            final(self).wf(),
            !(row < ROWS && col < COLUMNS) ==> r is None && final(self)@ == old(self)@,
            row < ROWS && col < COLUMNS ==> (r matches Some(m) && *m == cell_value(
                old(self)@,
                ROWS as int,
                row as int,
                col as int,
            ) && final(self)@ == old(self)@.update(
                row as int + col as int * ROWS as int,
                *final(m),
            )),
    {
        if row >= ROWS || col >= COLUMNS {
            None
        } else {
            proof {
                lemma_cell_index_bound(ROWS as int, COLUMNS as int, row as int, col as int);
            }
            let n = self.data.len();
            Some(&mut self.data[row + col * ROWS])
        }
    }

    /// Map every cell through a function, keeping the shape.
    #[verifier::loop_isolation(false)]
    pub fn map<Y, F: Fn(T) -> Y>(self, map: F) -> (r: Matrix<Y, ROWS, COLUMNS>)
        requires
            self.wf(),
            forall|i: int| 0 <= i < self@.len() ==> call_requires(map, (#[trigger] self@[i],)),
        ensures
            r.wf(),
            forall|i: int|
                0 <= i < self@.len() ==> call_ensures(map, (self@[i],), #[trigger] r@[i]),
    {
        let ghost orig = self.data@;
        let mut data = self.data;
        let mut out: Vec<Y> = Vec::new();
        while data.len() > 0
            invariant
                out@.len() + data@.len() == orig.len(),
                data@ =~= orig.subrange(out@.len() as int, orig.len() as int),
                forall|i: int|
                    0 <= i < out@.len() ==> call_ensures(map, (orig[i],), #[trigger] out@[i]),
            decreases data@.len(),
        {
            let item = data.remove(0);
            assert(item == orig[out@.len() as int]);
            out.push(map(item));
        }
        Matrix { data: out }
    }
}

impl<T: Copy, const ROWS: usize, const COLUMNS: usize> Matrix<T, ROWS, COLUMNS> {
    /// The transposed matrix: cell `(row, col)` of the result is cell
    /// `(col, row)` of `self`.
    #[verifier::loop_isolation(false)]
    pub fn transposed(&self) -> (r: Matrix<T, COLUMNS, ROWS>)
        requires
            self.wf(),
        ensures
            r.wf(),
            forall|row: int, col: int|
                0 <= row < COLUMNS && 0 <= col < ROWS ==> #[trigger] cell_value(
                    r@,
                    COLUMNS as int,
                    row,
                    col,
                ) == cell_value(self@, ROWS as int, col, row),
    {
        let n = self.data.len();
        let mut out: Vec<T> = Vec::new();
        let mut j: usize = 0;
        while j < n
            invariant
                j <= n,
                out@.len() == j,
                forall|jj: int|
                    0 <= jj < j ==> #[trigger] out@[jj] == self@[(jj / (COLUMNS as int)) + (jj % (
                    COLUMNS as int)) * (ROWS as int)],
            decreases n - j,
        {
            let ghost total = (ROWS as int) * (COLUMNS as int);
            proof {
                assert(COLUMNS > 0) by (nonlinear_arith)
                    requires
                        0 <= j as int,
                        (j as int) < total,
                        total == (ROWS as int) * (COLUMNS as int),
                ;
            }
            let row = j / COLUMNS;
            let col = j % COLUMNS;
            proof {
                assert(col + row * COLUMNS == j && row < ROWS) by (nonlinear_arith)
                    requires
                        col as int == j as int % (COLUMNS as int),
                        row as int == j as int / (COLUMNS as int),
                        0 <= j as int,
                        (j as int) < total,
                        total == (ROWS as int) * (COLUMNS as int),
                        COLUMNS > 0,
                ;
                lemma_cell_index_bound(COLUMNS as int, ROWS as int, col as int, row as int);
                lemma_cell_index_bound(ROWS as int, COLUMNS as int, row as int, col as int);
            }
            out.push(self.data[row + col * ROWS]);
            j += 1;
        }
        let r = Matrix::<T, COLUMNS, ROWS> { data: out };
        proof {
            assert forall|row: int, col: int|
                0 <= row < COLUMNS && 0 <= col < ROWS implies #[trigger] cell_value(
                r@,
                COLUMNS as int,
                row,
                col,
            ) == cell_value(self@, ROWS as int, col, row) by {
                lemma_cell_index_bound(COLUMNS as int, ROWS as int, row, col);
                let jj = row + col * (COLUMNS as int);
                assert(jj / (COLUMNS as int) == col && jj % (COLUMNS as int) == row)
                    by (nonlinear_arith)
                    requires
                        jj == row + col * (COLUMNS as int),
                        0 <= row < COLUMNS,
                        0 <= col,
                ;
            }
        }
        r
    }
}

impl<const SIZE: usize> Matrix<i64, SIZE, SIZE> {
    /// The identity matrix: ones on the diagonal, zeroes elsewhere.
    /// Multiplying a matrix by the identity gives that matrix back.
    #[verifier::loop_isolation(false)]
    pub fn identity() -> (r: Self)
        requires
            SIZE * SIZE <= usize::MAX,
        ensures
            r.wf(),
            forall|row: int, col: int|
                0 <= row < SIZE && 0 <= col < SIZE ==> #[trigger] cell_value(
                    r@,
                    SIZE as int,
                    row,
                    col,
                ) == (if row == col {
                    1i64
                } else {
                    0i64
                }),
    {
        let n = SIZE * SIZE;
        let mut out: Vec<i64> = Vec::new();
        let mut j: usize = 0;
        while j < n
            invariant
                j <= n,
                out@.len() == j,
                forall|jj: int|
                    0 <= jj < j ==> #[trigger] out@[jj] == (if jj % (SIZE as int) == jj / (
                    SIZE as int) {
                        1i64
                    } else {
                        0i64
                    }),
            decreases n - j,
        {
            proof {
                assert(SIZE > 0) by (nonlinear_arith)
                    requires
                        0 <= j < SIZE * SIZE,
                ;
            }
            let row = j % SIZE;
            let col = j / SIZE;
            if row == col {
                out.push(1);
            } else {
                out.push(0);
            }
            j += 1;
        }
        let r = Matrix::<i64, SIZE, SIZE> { data: out };
        proof {
            assert forall|row: int, col: int|
                0 <= row < SIZE && 0 <= col < SIZE implies #[trigger] cell_value(
                r@,
                SIZE as int,
                row,
                col,
            ) == (if row == col {
                1i64
            } else {
                0i64
            }) by {
                lemma_cell_index_bound(SIZE as int, SIZE as int, row, col);
                let jj = row + col * (SIZE as int);
                assert(jj % (SIZE as int) == row && jj / (SIZE as int) == col)
                    by (nonlinear_arith)
                    requires
                        jj == row + col * (SIZE as int),
                        0 <= row < SIZE,
                        0 <= col,
                ;
            }
        }
        r
    }
}

impl<const SIDE: usize, const EXTRA1: usize> Matrix<i64, SIDE, EXTRA1> {
    /// The matrix product `self * rhs`.  Cell `(x, y)` of the result is the
    /// sum over `i` of `self(i, y) * rhs(x, i)`.
    #[verifier::loop_isolation(false)]
    pub fn mul<const EXTRA2: usize>(&self, rhs: &Matrix<i64, EXTRA2, SIDE>) -> (r: Matrix<
        i64,
        EXTRA2,
        EXTRA1,
    >)
        requires
            self.wf(),
            rhs.wf(),
            EXTRA2 * EXTRA1 <= usize::MAX,
            forall|y: int, x: int, i: int|
                0 <= y < EXTRA1 && 0 <= x < EXTRA2 && 0 <= i < SIDE ==> i64::MIN
                    <= #[trigger] product_term(
                    self@,
                    rhs@,
                    SIDE as int,
                    EXTRA2 as int,
                    y,
                    x,
                    i,
                ) <= i64::MAX,
            forall|y: int, x: int, k: int|
                0 <= y < EXTRA1 && 0 <= x < EXTRA2 && 0 <= k <= SIDE ==> i64::MIN
                    <= #[trigger] product_entry(
                    self@,
                    rhs@,
                    SIDE as int,
                    EXTRA2 as int,
                    y,
                    x,
                    k,
                ) <= i64::MAX,
        ensures
            r.wf(),
            forall|y: int, x: int|
                0 <= y < EXTRA1 && 0 <= x < EXTRA2 ==> #[trigger] cell_value(
                    r@,
                    EXTRA2 as int,
                    x,
                    y,
                ) == product_entry(self@, rhs@, SIDE as int, EXTRA2 as int, y, x, SIDE as int),
    {
        let a_len = self.data.len();
        let b_len = rhs.data.len();
        let mut out: Vec<i64> = vec![0i64; EXTRA2 * EXTRA1];
        let mut x: usize = 0;
        while x < EXTRA2
            invariant
                x <= EXTRA2,
                out@.len() == EXTRA2 * EXTRA1,
                forall|x2: int, y2: int|
                    0 <= x2 < x && 0 <= y2 < EXTRA1 ==> #[trigger] cell_value(
                        out@,
                        EXTRA2 as int,
                        x2,
                        y2,
                    ) == product_entry(self@, rhs@, SIDE as int, EXTRA2 as int, y2, x2, SIDE as int),
            decreases EXTRA2 - x,
        {
            let mut y: usize = 0;
            while y < EXTRA1
                invariant
                    x < EXTRA2,
                    y <= EXTRA1,
                    out@.len() == EXTRA2 * EXTRA1,
                    forall|x2: int, y2: int|
                        0 <= x2 < x && 0 <= y2 < EXTRA1 ==> #[trigger] cell_value(
                            out@,
                            EXTRA2 as int,
                            x2,
                            y2,
                        ) == product_entry(
                            self@,
                            rhs@,
                            SIDE as int,
                            EXTRA2 as int,
                            y2,
                            x2,
                            SIDE as int,
                        ),
                    forall|y2: int|
                        0 <= y2 < y ==> #[trigger] cell_value(out@, EXTRA2 as int, x as int, y2)
                            == product_entry(
                            self@,
                            rhs@,
                            SIDE as int,
                            EXTRA2 as int,
                            y2,
                            x as int,
                            SIDE as int,
                        ),
                decreases EXTRA1 - y,
            {
                let mut acc: i64 = 0;
                let mut k: usize = 0;
                while k < SIDE
                    invariant
                        x < EXTRA2,
                        y < EXTRA1,
                        k <= SIDE,
                        acc as int == product_entry(
                            self@,
                            rhs@,
                            SIDE as int,
                            EXTRA2 as int,
                            y as int,
                            x as int,
                            k as int,
                        ),
                    decreases SIDE - k,
                {
                    proof {
                        lemma_cell_index_bound(SIDE as int, EXTRA1 as int, k as int, y as int);
                        lemma_cell_index_bound(EXTRA2 as int, SIDE as int, x as int, k as int);
                        assert(i64::MIN <= product_term(
                            self@,
                            rhs@,
                            SIDE as int,
                            EXTRA2 as int,
                            y as int,
                            x as int,
                            k as int,
                        ) <= i64::MAX);
                        assert(i64::MIN <= product_entry(
                            self@,
                            rhs@,
                            SIDE as int,
                            EXTRA2 as int,
                            y as int,
                            x as int,
                            k as int + 1,
                        ) <= i64::MAX);
                    }
                    let term = self.data[k + y * SIDE] * rhs.data[x + k * EXTRA2];
                    acc = acc + term;
                    k += 1;
                }
                proof {
                    lemma_cell_index_bound(EXTRA2 as int, EXTRA1 as int, x as int, y as int);
                }
                let ghost before = out@;
                out[x + y * EXTRA2] = acc;
                proof {
                    assert forall|x2: int, y2: int|
                        0 <= x2 < EXTRA2 && 0 <= y2 < EXTRA1 && !(x2 == x as int && y2
                            == y as int) implies #[trigger] cell_value(out@, EXTRA2 as int, x2, y2)
                        == cell_value(before, EXTRA2 as int, x2, y2) by {
                        lemma_cell_index_bound(EXTRA2 as int, EXTRA1 as int, x2, y2);
                        if x2 + y2 * (EXTRA2 as int) == x as int + (y as int) * (EXTRA2 as int) {
                            lemma_cell_index_injective(
                                EXTRA2 as int,
                                x2,
                                y2,
                                x as int,
                                y as int,
                            );
                        }
                    }
                }
                y += 1;
            }
            x += 1;
        }
        Matrix { data: out }
    }
}

impl<const ROWS: usize, const COLUMNS: usize> Matrix<i64, ROWS, COLUMNS> {
    /// The element-wise sum `self + rhs`.
    #[verifier::loop_isolation(false)]
    pub fn add(&self, rhs: &Matrix<i64, ROWS, COLUMNS>) -> (r: Self)
        requires
            self.wf(),
            rhs.wf(),
            forall|i: int|
                0 <= i < self@.len() ==> i64::MIN <= #[trigger] self@[i] + rhs@[i] <= i64::MAX,
        ensures
            r.wf(),
            forall|i: int| 0 <= i < self@.len() ==> #[trigger] r@[i] == self@[i] + rhs@[i],
    {
        let n = self.data.len();
        let mut out: Vec<i64> = Vec::new();
        let mut j: usize = 0;
        while j < n
            invariant
                j <= n,
                out@.len() == j,
                forall|jj: int| 0 <= jj < j ==> #[trigger] out@[jj] == self@[jj] + rhs@[jj],
            decreases n - j,
        {
            out.push(self.data[j] + rhs.data[j]);
            j += 1;
        }
        Matrix { data: out }
    }
}

} // verus!
