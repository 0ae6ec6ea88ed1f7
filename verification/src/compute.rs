//! CPU kernels that move tensor elements without computing on them
//!
//! Copy, transpose, permute, repeat and row gathering only read elements
//! and write them elsewhere, so they are generic over the element type:
//! the f32 data of a tensor passes through them unchanged.

use vstd::prelude::*;
use crate::backend::{CpuBackendError, CpuBackendErrorView};
use crate::text::{decimal, push_decimal};

verus! {

/// CPU compute operations
pub struct CpuCompute;

/// Position `j + i * m` of a row-major `[n, m]` grid lies inside it.
pub proof fn lemma_grid_index(i: int, j: int, n: int, m: int)
    by (nonlinear_arith)
    requires
        0 <= i < n,
        0 <= j < m,
    ensures
        0 <= i * m,
        0 <= j + i * m < n * m,
        n * m == m * n,
{
}

/// Row-major positions grow with the (row, column) pair in lexicographic order.
pub proof fn lemma_grid_order(i2: int, j2: int, i: int, j: int, m: int)
    by (nonlinear_arith)
    requires
        0 <= j2 < m,
        0 <= j < m,
        0 <= i2,
        i2 < i || (i2 == i && j2 < j),
    ensures
        j2 + i2 * m < j + i * m,
{
}

/// `c` holds the transpose of the column-major `[rows, cols]` matrix `a`:
/// element `(i, j)` of `a` is element `(j, i)` of `c`.
pub open spec fn is_transpose<T>(a: Seq<T>, c: Seq<T>, rows: int, cols: int) -> bool {
    forall|i: int, j: int|
        0 <= i < rows && 0 <= j < cols ==> #[trigger] c[j + i * cols] == a[i + j * rows]
}

/// Transposing twice gives the matrix back: if `c` is the transpose of the
/// `[rows, cols]` matrix `a` and `d` that of the `[cols, rows]` matrix `c`,
/// then `d` is `a`.
pub proof fn lemma_transpose_twice<T>(a: Seq<T>, c: Seq<T>, d: Seq<T>, rows: int, cols: int)
    requires
        0 <= rows,
        0 <= cols,
        a.len() == rows * cols,
        d.len() == rows * cols,
        is_transpose(a, c, rows, cols),
        is_transpose(c, d, cols, rows),
    ensures
        d == a,
{
    assert forall|m: int| 0 <= m < a.len() implies d[m] == a[m] by {
        let i = m % rows;
        let j = m / rows;
        assert(rows > 0) by (nonlinear_arith)
            requires
                0 <= m < rows * cols,
                0 <= cols,
        ;
        vstd::arithmetic::div_mod::lemma_fundamental_div_mod(m, rows);
        assert(m == i + j * rows) by (nonlinear_arith)
            requires
                m == rows * (m / rows) + m % rows,
                i == m % rows,
                j == m / rows,
        ;
        assert(0 <= i < rows);
        assert(0 <= j < cols) by (nonlinear_arith)
            requires
                0 <= m < rows * cols,
                m == i + j * rows,
                0 <= i < rows,
                rows > 0,
        ;
        assert(c[j + i * cols] == a[i + j * rows]);
        assert(d[i + j * rows] == c[j + i * cols]);
    }
    assert(d =~= a);
}

/// The message of a length mismatch between an input and an output.
pub open spec fn lengths_text(a: nat, c: nat) -> Seq<char> {
    "Lengths don't match: "@ + decimal(a) + " vs "@ + decimal(c)
}

/// `n` copies of `s`, one after the other.
pub open spec fn repeated<T>(s: Seq<T>, n: nat) -> Seq<T>
    decreases n,
{
    if n == 0 {
        Seq::empty()
    } else {
        repeated(s, (n - 1) as nat) + s
    }
}

/// The length of `n` copies of `s`.
pub proof fn lemma_repeated_len<T>(s: Seq<T>, n: nat)
    ensures
        repeated(s, n).len() == s.len() * n,
    decreases n,
{
    if n > 0 {
        let p = (n - 1) as nat;
        lemma_repeated_len(s, p);
        assert(repeated(s, n) == repeated(s, p) + s);
        assert(s.len() * n == s.len() * p + s.len()) by (nonlinear_arith)
            requires
                p + 1 == n,
        ;
    } else {
        assert(s.len() * n == 0) by (nonlinear_arith)
            requires
                n == 0,
        ;
    }
}

/// The first `t` tokens of `ix` have been gathered into `c` from the
/// column-major `[n_rows, n_cols]` matrix `a`; everything from position
/// `t * n_cols` on is still as in `c0`.
pub open spec fn gathered<T>(
    c0: Seq<T>,
    c: Seq<T>,
    a: Seq<T>,
    ix: Seq<usize>,
    n_rows: int,
    n_cols: int,
    t: int,
) -> bool {
    &&& c.len() == c0.len()
    &&& forall|tok: int, col: int|
        0 <= tok < t && 0 <= col < n_cols ==> #[trigger] c[col + tok * n_cols] == a[ix[tok]
            + col * n_rows]
    &&& forall|k: int| t * n_cols <= k < c.len() ==> #[trigger] c[k] == c0[k]
}

/// Every one of the first `t` indices names a row below `n_rows`.
pub open spec fn rows_in_range(ix: Seq<usize>, n_rows: int, t: int) -> bool {
    forall|i: int| 0 <= i < t ==> #[trigger] ix[i] < n_rows
}

/// The message of an output of the wrong length.
pub open spec fn output_size_text(expected: nat, got: nat) -> Seq<char> {
    "Output size mismatch: expected "@ + decimal(expected) + ", got "@ + decimal(got)
}

/// The message of a row index past the matrix.
pub open spec fn row_bound_text(row: nat, n_rows: nat) -> Seq<char> {
    "Row index "@ + decimal(row) + " out of bounds (n_rows="@ + decimal(n_rows) + ")"@
}

/// Position of the element with coordinates `(x0, x1, x2)` in a
/// column-major box whose first two extents are `n0` and `n1`.
pub open spec fn box_index(x0: int, x1: int, x2: int, n0: int, n1: int) -> int {
    x0 + x1 * n0 + x2 * n0 * n1
}

/// `p` reorders the three axes: each names an axis, no axis twice.
pub open spec fn is_axis_permutation(p: [usize; 3]) -> bool {
    &&& p[0] < 3 && p[1] < 3 && p[2] < 3
    &&& p[0] != p[1] && p[0] != p[2] && p[1] != p[2]
}

/// Coordinate `k` of `(x0, x1, x2)`.
pub open spec fn axis(x0: int, x1: int, x2: int, k: int) -> int {
    if k == 0 {
        x0
    } else if k == 1 {
        x1
    } else {
        x2
    }
}

/// Where the element at `(i0, i1, i2)` of a box with extents `d` lands once
/// its axes are reordered by `p`.
pub open spec fn permuted_index(i0: int, i1: int, i2: int, d: [usize; 3], p: [usize; 3]) -> int {
    box_index(
        axis(i0, i1, i2, p[0] as int),
        axis(i0, i1, i2, p[1] as int),
        axis(i0, i1, i2, p[2] as int),
        axis(d[0] as int, d[1] as int, d[2] as int, p[0] as int),
        axis(d[0] as int, d[1] as int, d[2] as int, p[1] as int),
    )
}

/// The element at `(i0, i1, i2)` of `a` sits at its permuted place in `c`.
pub open spec fn moved<T>(c: Seq<T>, a: Seq<T>, d: [usize; 3], p: [usize; 3], i0: int, i1: int, i2: int) -> bool {
    c[permuted_index(i0, i1, i2, d, p)] == a[box_index(i0, i1, i2, d[0] as int, d[1] as int)]
}

/// `(i0, i1, i2)` lies inside the box with extents `d`.
pub open spec fn in_box(i0: int, i1: int, i2: int, d: [usize; 3]) -> bool {
    0 <= i0 < d[0] && 0 <= i1 < d[1] && 0 <= i2 < d[2]
}

/// Two digits below `n` and above it give one position only.
pub proof fn lemma_two_digits(x0: int, x1: int, y0: int, y1: int, n: int)
    by (nonlinear_arith)
    requires
        0 <= x0 < n,
        0 <= y0 < n,
        0 <= x1,
        0 <= y1,
        x0 + x1 * n == y0 + y1 * n,
    ensures
        x0 == y0,
        x1 == y1,
{
    if x1 < y1 {
        assert(x0 + x1 * n < (x1 + 1) * n);
        assert((x1 + 1) * n <= y1 * n);
    } else if y1 < x1 {
        assert(y0 + y1 * n < (y1 + 1) * n);
        assert((y1 + 1) * n <= x1 * n);
    }
}

/// Positions in a box are distinct for distinct coordinates, and lie below
/// the product of its extents.
pub proof fn lemma_box_index(x0: int, x1: int, x2: int, n0: int, n1: int, n2: int)
    requires
        0 <= x0 < n0,
        0 <= x1 < n1,
        0 <= x2 < n2,
    ensures
        0 <= x1 * n0 <= box_index(x0, x1, x2, n0, n1),
        0 <= x2 * n0 <= x2 * n0 * n1 <= box_index(x0, x1, x2, n0, n1),
        box_index(x0, x1, x2, n0, n1) < n0 * n1 * n2,
        forall|y0: int, y1: int, y2: int|
            0 <= y0 < n0 && 0 <= y1 < n1 && 0 <= y2 < n2 && #[trigger] box_index(y0, y1, y2, n0, n1)
                == box_index(x0, x1, x2, n0, n1) ==> y0 == x0 && y1 == x1 && y2 == x2,
{
    assert(0 <= x1 * n0 && x0 + x1 * n0 < n0 * n1) by (nonlinear_arith)
        requires
            0 <= x0 < n0,
            0 <= x1 < n1,
    ;
    assert(0 <= x2 * n0 <= x2 * n0 * n1 && x2 * n0 * n1 + n0 * n1 <= n0 * n1 * n2) by (nonlinear_arith)
        requires
            0 <= x2 < n2,
            0 <= x1 < n1,
            0 <= x0 < n0,
    ;
    assert forall|y0: int, y1: int, y2: int|
        0 <= y0 < n0 && 0 <= y1 < n1 && 0 <= y2 < n2 && #[trigger] box_index(y0, y1, y2, n0, n1)
            == box_index(x0, x1, x2, n0, n1) implies y0 == x0 && y1 == x1 && y2 == x2 by {
        assert(x1 * n0 + x2 * n0 * n1 == (x1 + x2 * n1) * n0) by (nonlinear_arith);
        assert(y1 * n0 + y2 * n0 * n1 == (y1 + y2 * n1) * n0) by (nonlinear_arith);
        assert(0 <= x1 + x2 * n1 && 0 <= y1 + y2 * n1) by (nonlinear_arith)
            requires
                0 <= x1,
                0 <= x2,
                0 <= y1,
                0 <= y2,
                0 <= n1,
        ;
        lemma_two_digits(x0, x1 + x2 * n1, y0, y1 + y2 * n1, n0);
        lemma_two_digits(x1, x2, y1, y2, n1);
    }
}

/// Reordering the axes keeps the number of elements.
pub proof fn lemma_permuted_volume(d0: int, d1: int, d2: int, p: [usize; 3])
    requires
        is_axis_permutation(p),
    ensures
        axis(d0, d1, d2, p[0] as int) * axis(d0, d1, d2, p[1] as int) * axis(d0, d1, d2, p[2] as int)
            == d0 * d1 * d2,
{
    assert(d0 * d2 * d1 == d0 * d1 * d2) by (nonlinear_arith);
    assert(d1 * d0 * d2 == d0 * d1 * d2) by (nonlinear_arith);
    assert(d1 * d2 * d0 == d0 * d1 * d2) by (nonlinear_arith);
    assert(d2 * d0 * d1 == d0 * d1 * d2) by (nonlinear_arith);
    assert(d2 * d1 * d0 == d0 * d1 * d2) by (nonlinear_arith);
}

/// A permuted position lies inside the box, and distinct coordinates land
/// at distinct positions.
pub proof fn lemma_permuted_index(i0: int, i1: int, i2: int, d: [usize; 3], p: [usize; 3])
    requires
        is_axis_permutation(p),
        in_box(i0, i1, i2, d),
    ensures
        0 <= permuted_index(i0, i1, i2, d, p) < d[0] * d[1] * d[2],
        forall|j0: int, j1: int, j2: int|
            in_box(j0, j1, j2, d) && #[trigger] permuted_index(j0, j1, j2, d, p) == permuted_index(
                i0,
                i1,
                i2,
                d,
                p,
            ) ==> j0 == i0 && j1 == i1 && j2 == i2,
{
    let (n0, n1, n2) = (d[0] as int, d[1] as int, d[2] as int);
    let e0 = axis(n0, n1, n2, p[0] as int);
    let e1 = axis(n0, n1, n2, p[1] as int);
    let e2 = axis(n0, n1, n2, p[2] as int);
    lemma_permuted_volume(n0, n1, n2, p);
    lemma_box_index(
        axis(i0, i1, i2, p[0] as int),
        axis(i0, i1, i2, p[1] as int),
        axis(i0, i1, i2, p[2] as int),
        e0,
        e1,
        e2,
    );
    assert forall|j0: int, j1: int, j2: int|
        in_box(j0, j1, j2, d) && #[trigger] permuted_index(j0, j1, j2, d, p) == permuted_index(
            i0,
            i1,
            i2,
            d,
            p,
        ) implies j0 == i0 && j1 == i1 && j2 == i2 by {
        assert(box_index(
            axis(j0, j1, j2, p[0] as int),
            axis(j0, j1, j2, p[1] as int),
            axis(j0, j1, j2, p[2] as int),
            e0,
            e1,
        ) == permuted_index(j0, j1, j2, d, p));
    }
}

impl CpuCompute {
    /// Copy: c = a
    pub fn copy_f32<T: Copy>(a: &[T], c: &mut [T]) -> (r: Result<(), CpuBackendError>)
        ensures
            r is Ok <==> a@.len() == old(c)@.len(),
            r is Ok ==> final(c)@ == a@,
            r matches Err(e) ==> e@ == CpuBackendErrorView::ShapeMismatch(
                lengths_text(a@.len(), old(c)@.len()),
            ) && final(c)@ == old(c)@,
    {
        if a.len() != c.len() {
            let mut msg = String::from_str("Lengths don't match: ");
            push_decimal(&mut msg, a.len());
            msg.append(" vs ");
            push_decimal(&mut msg, c.len());
            return Err(CpuBackendError::ShapeMismatch(msg));
        }
        let mut i: usize = 0;
        while i < a.len()
            invariant
                a@.len() == c@.len(),
                i <= a@.len(),
                forall|k: int| 0 <= k < i ==> c@[k] == a@[k],
            decreases a.len() - i,
        {
            c[i] = a[i];
            i = i + 1;
        }
        assert(c@ =~= a@);
        Ok(())
    }

    /// Transpose a 2D matrix: C = A^T
    /// A: [rows, cols] -> C: [cols, rows]
    pub fn transpose_f32<T: Copy>(a: &[T], a_shape: [usize; 2], c: &mut [T]) -> (r: Result<
        (),
        CpuBackendError,
    >)
        requires
            a_shape[0] * a_shape[1] <= usize::MAX,
        ensures
            final(c)@.len() == old(c)@.len(),
            r is Ok <==> (a@.len() == a_shape[0] * a_shape[1] && old(c)@.len() == a_shape[0]
                * a_shape[1]),
            r is Ok ==> is_transpose(a@, final(c)@, a_shape[0] as int, a_shape[1] as int),
            r matches Err(e) ==> e@ == CpuBackendErrorView::ShapeMismatch("Size mismatch"@)
                && final(c)@ == old(c)@,
    {
        let rows = a_shape[0];
        let cols = a_shape[1];
        if a.len() != rows * cols || c.len() != rows * cols {
            return Err(CpuBackendError::ShapeMismatch(String::from_str("Size mismatch")));
        }
        let mut i: usize = 0;
        while i < rows
            invariant
                rows == a_shape[0],
                cols == a_shape[1],
                a@.len() == rows * cols,
                c@.len() == rows * cols,
                rows * cols <= usize::MAX,
                i <= rows,
                forall|i2: int, j2: int|
                    0 <= i2 < i && 0 <= j2 < cols ==> #[trigger] c@[j2 + i2 * cols] == a@[i2
                        + j2 * rows],
            decreases rows - i,
        {
            let mut j: usize = 0;
            while j < cols
                invariant
                    rows == a_shape[0],
                    cols == a_shape[1],
                    a@.len() == rows * cols,
                    c@.len() == rows * cols,
                    rows * cols <= usize::MAX,
                    i < rows,
                    j <= cols,
                    forall|i2: int, j2: int|
                        0 <= i2 < i && 0 <= j2 < cols ==> #[trigger] c@[j2 + i2 * cols] == a@[i2
                            + j2 * rows],
                    forall|j2: int| 0 <= j2 < j ==> #[trigger] c@[j2 + i * cols] == a@[i + j2 * rows],
                decreases cols - j,
            {
                proof {
                    lemma_grid_index(i as int, j as int, rows as int, cols as int);
                    lemma_grid_index(j as int, i as int, cols as int, rows as int);
                }
                let ghost before = c@;
                let c_idx = j + i * cols;
                let a_idx = i + j * rows;
                c[c_idx] = a[a_idx];
                proof {
                    assert forall|i2: int, j2: int|
                        0 <= i2 < i && 0 <= j2 < cols implies #[trigger] c@[j2 + i2 * cols] == a@[i2
                            + j2 * rows] by {
                        lemma_grid_order(i2, j2, i as int, j as int, cols as int);
                        assert(before[j2 + i2 * cols] == a@[i2 + j2 * rows]);
                    }
                    assert forall|j2: int| 0 <= j2 < j + 1 implies #[trigger] c@[j2 + i * cols] == a@[i
                        + j2 * rows] by {
                        if j2 < j {
                            lemma_grid_order(i as int, j2, i as int, j as int, cols as int);
                            assert(before[j2 + i * cols] == a@[i + j2 * rows]);
                        }
                    }
                }
                j = j + 1;
            }
            i = i + 1;
        }
        Ok(())
    }

    /// Repeat tensor along a dimension
    pub fn repeat_f32<T: Copy>(a: &[T], a_len: usize, c: &mut [T], n_repeat: usize) -> (r: Result<
        (),
        CpuBackendError,
    >)
        requires
            a_len * n_repeat <= usize::MAX,
        ensures
            r is Ok <==> (a@.len() == a_len && old(c)@.len() == a_len * n_repeat),
            r is Ok ==> final(c)@ == repeated(a@, n_repeat as nat),
            r matches Err(e) ==> final(c)@ == old(c)@ && e@ == CpuBackendErrorView::ShapeMismatch(
                if a@.len() != a_len {
                    "Input size mismatch"@
                } else {
                    "Output size mismatch"@
                },
            ),
    {
        if a.len() != a_len {
            return Err(CpuBackendError::ShapeMismatch(String::from_str("Input size mismatch")));
        }
        if c.len() != a_len * n_repeat {
            return Err(CpuBackendError::ShapeMismatch(String::from_str("Output size mismatch")));
        }
        let ghost c0 = c@;
        let mut i: usize = 0;
        while i < n_repeat
            invariant
                a@.len() == a_len,
                c@.len() == a_len * n_repeat,
                i <= n_repeat,
                a_len * n_repeat <= usize::MAX,
                c@.subrange(0, a_len * i) == repeated(a@, i as nat),
            decreases n_repeat - i,
        {
            proof {
                lemma_repeated_len(a@, i as nat);
                assert(a_len * i + a_len == a_len * (i + 1)) by (nonlinear_arith);
                assert(a_len * (i + 1) <= a_len * n_repeat) by (nonlinear_arith)
                    requires
                        i < n_repeat,
                ;
            }
            let offset = a_len * i;
            let ghost start = c@;
            let mut k: usize = 0;
            while k < a_len
                invariant
                    a@.len() == a_len,
                    c@.len() == a_len * n_repeat,
                    offset + a_len <= a_len * n_repeat,
                    a_len * n_repeat <= usize::MAX,
                    k <= a_len,
                    c@.subrange(0, offset as int) == start.subrange(0, offset as int),
                    forall|m: int| 0 <= m < k ==> c@[offset + m] == a@[m],
                decreases a_len - k,
            {
                c[offset + k] = a[k];
                k = k + 1;
            }
            proof {
                assert(c@.subrange(0, offset + a_len) =~= c@.subrange(0, offset as int) + a@);
                assert(c@.subrange(0, a_len * (i + 1)) == repeated(a@, (i + 1) as nat));
            }
            i = i + 1;
        }
        assert(c@ =~= c@.subrange(0, a_len * n_repeat));
        Ok(())
    }

    /// Get rows from a matrix (used for embedding lookup)
    /// A: [n_rows, n_cols], indices: [n_tokens] -> C: [n_cols, n_tokens]
    /// Extracts specified rows from matrix A
    /// In column-major storage, row i has elements at positions: i, i+n_rows, i+2*n_rows, ...
    pub fn get_rows_f32<T: Copy>(a: &[T], a_shape: [usize; 2], indices: &[usize], c: &mut [T]) -> (r:
        Result<(), CpuBackendError>)
        requires
            a_shape[0] * a_shape[1] <= a@.len(),
            a_shape[1] * indices@.len() <= usize::MAX,
        ensures
            r is Ok <==> (old(c)@.len() == a_shape[1] * indices@.len() && rows_in_range(
                indices@,
                a_shape[0] as int,
                indices@.len() as int,
            )),
            r is Ok ==> gathered(
                old(c)@,
                final(c)@,
                a@,
                indices@,
                a_shape[0] as int,
                a_shape[1] as int,
                indices@.len() as int,
            ),
            r matches Err(e) ==> if old(c)@.len() != a_shape[1] * indices@.len() {
                final(c)@ == old(c)@ && e@ == CpuBackendErrorView::ShapeMismatch(
                    output_size_text((a_shape[1] * indices@.len()) as nat, old(c)@.len()),
                )
            } else {
                exists|t: int|
                    0 <= t < indices@.len() && rows_in_range(indices@, a_shape[0] as int, t)
                        && indices@[t] >= a_shape[0] && gathered(
                        old(c)@,
                        final(c)@,
                        a@,
                        indices@,
                        a_shape[0] as int,
                        a_shape[1] as int,
                        t,
                    ) && e@ == CpuBackendErrorView::ShapeMismatch(
                        row_bound_text(indices@[t] as nat, a_shape[0] as nat),
                    )
            },
    {
        let n_rows = a_shape[0];
        let n_cols = a_shape[1];
        let n_tokens = indices.len();
        if c.len() != n_cols * n_tokens {
            let mut msg = String::from_str("Output size mismatch: expected ");
            push_decimal(&mut msg, n_cols * n_tokens);
            msg.append(", got ");
            push_decimal(&mut msg, c.len());
            return Err(CpuBackendError::ShapeMismatch(msg));
        }
        let ghost c0 = c@;
        let ghost nr = n_rows as int;
        let ghost nc = n_cols as int;
        assert(0 * nc == 0);
        assert(a@.len() == a.len());
        let mut token_idx: usize = 0;
        while token_idx < n_tokens
            invariant
                n_rows == a_shape[0],
                n_cols == a_shape[1],
                nr == n_rows,
                nc == n_cols,
                n_tokens == indices@.len(),
                n_rows * n_cols <= a@.len(),
                n_rows * n_cols <= usize::MAX,
                n_cols * n_tokens <= usize::MAX,
                c@.len() == n_cols * n_tokens,
                c0.len() == c@.len(),
                c0 == old(c)@,
                token_idx <= n_tokens,
                rows_in_range(indices@, nr, token_idx as int),
                gathered(c0, c@, a@, indices@, nr, nc, token_idx as int),
            decreases n_tokens - token_idx,
        {
            let row_idx = indices[token_idx];
            if row_idx >= n_rows {
                proof {
                    let t = token_idx as int;
                    assert(0 <= t < indices@.len() && rows_in_range(indices@, a_shape[0] as int, t)
                        && indices@[t] >= a_shape[0] && gathered(
                        old(c)@,
                        c@,
                        a@,
                        indices@,
                        a_shape[0] as int,
                        a_shape[1] as int,
                        t,
                    ));
                }
                let mut msg = String::from_str("Row index ");
                push_decimal(&mut msg, row_idx);
                msg.append(" out of bounds (n_rows=");
                push_decimal(&mut msg, n_rows);
                msg.append(")");
                return Err(CpuBackendError::ShapeMismatch(msg));
            }
            let ghost t = token_idx as int;
            let mut col_idx: usize = 0;
            while col_idx < n_cols
                invariant
                    n_rows == a_shape[0],
                    n_cols == a_shape[1],
                    nr == n_rows,
                    nc == n_cols,
                    n_tokens == indices@.len(),
                    n_rows * n_cols <= a@.len(),
                    n_rows * n_cols <= usize::MAX,
                    n_cols * n_tokens <= usize::MAX,
                    c@.len() == n_cols * n_tokens,
                    c0.len() == c@.len(),
                    t == token_idx,
                    token_idx < n_tokens,
                    row_idx == indices@[t],
                    row_idx < n_rows,
                    col_idx <= n_cols,
                    forall|tok: int, col: int|
                        0 <= tok < t && 0 <= col < nc ==> #[trigger] c@[col + tok * nc]
                            == a@[indices@[tok] + col * nr],
                    forall|col: int| 0 <= col < col_idx ==> #[trigger] c@[col + t * nc] == a@[row_idx
                        + col * nr],
                    forall|k: int| t * nc + col_idx <= k < c@.len() ==> #[trigger] c@[k] == c0[k],
                decreases n_cols - col_idx,
            {
                proof {
                    lemma_grid_index(t, col_idx as int, n_tokens as int, nc);
                    lemma_grid_index(col_idx as int, row_idx as int, nc, nr);
                }
                let ghost before = c@;
                let src_idx = row_idx + col_idx * n_rows;
                let dst_idx = col_idx + token_idx * n_cols;
                c[dst_idx] = a[src_idx];
                proof {
                    assert forall|tok: int, col: int|
                        0 <= tok < t && 0 <= col < nc implies #[trigger] c@[col + tok * nc]
                            == a@[indices@[tok] + col * nr] by {
                        lemma_grid_order(tok, col, t, col_idx as int, nc);
                        assert(before[col + tok * nc] == a@[indices@[tok] + col * nr]);
                    }
                    assert forall|col: int| 0 <= col < col_idx + 1 implies #[trigger] c@[col + t
                        * nc] == a@[row_idx + col * nr] by {
                        if col < col_idx {
                            lemma_grid_order(t, col, t, col_idx as int, nc);
                            assert(before[col + t * nc] == a@[row_idx + col * nr]);
                        }
                    }
                    assert forall|k: int| t * nc + col_idx + 1 <= k < c@.len() implies #[trigger] c@[k]
                        == c0[k] by {
                        assert(before[k] == c0[k]);
                    }
                }
                col_idx = col_idx + 1;
            }
            proof {
                assert((t + 1) * nc == t * nc + nc) by (nonlinear_arith);
                assert forall|tok: int, col: int|
                    0 <= tok < t + 1 && 0 <= col < nc implies #[trigger] c@[col + tok * nc]
                        == a@[indices@[tok] + col * nr] by {
                    if tok == t {
                        assert(c@[col + t * nc] == a@[row_idx + col * nr]);
                    }
                }
            }
            token_idx = token_idx + 1;
        }
        Ok(())
    }

    /// Permute dimensions (for 3D tensors)
    /// Reorders dimensions according to the permutation
    pub fn permute_f32<T: Copy>(a: &[T], a_shape: [usize; 3], c: &mut [T], perm: [usize; 3]) -> (r:
        Result<(), CpuBackendError>)
        requires
            a_shape[0] * a_shape[1] <= usize::MAX,
            a_shape[0] * a_shape[1] * a_shape[2] <= usize::MAX,
            is_axis_permutation(perm),
        ensures
            final(c)@.len() == old(c)@.len(),
            r is Ok <==> (a@.len() == a_shape[0] * a_shape[1] * a_shape[2] && old(c)@.len()
                == a_shape[0] * a_shape[1] * a_shape[2]),
            r is Ok ==> forall|i0: int, i1: int, i2: int|
                in_box(i0, i1, i2, a_shape) ==> #[trigger] moved(final(c)@, a@, a_shape, perm, i0, i1, i2),
            r matches Err(e) ==> final(c)@ == old(c)@ && e@ == CpuBackendErrorView::ShapeMismatch(
                "Size mismatch in permute"@,
            ),
    {
        let d0 = a_shape[0];
        let d1 = a_shape[1];
        let d2 = a_shape[2];
        if a.len() != d0 * d1 * d2 || c.len() != d0 * d1 * d2 {
            return Err(CpuBackendError::ShapeMismatch(String::from_str("Size mismatch in permute")));
        }
        let new_shape = [a_shape[perm[0]], a_shape[perm[1]], a_shape[perm[2]]];
        let mut i0: usize = 0;
        while i0 < d0
            invariant
                d0 == a_shape[0],
                d1 == a_shape[1],
                d2 == a_shape[2],
                is_axis_permutation(perm),
                new_shape[0] == a_shape[perm[0] as int],
                new_shape[1] == a_shape[perm[1] as int],
                d0 * d1 * d2 <= usize::MAX,
                a@.len() == d0 * d1 * d2,
                c@.len() == d0 * d1 * d2,
                i0 <= d0,
                forall|j0: int, j1: int, j2: int|
                    in_box(j0, j1, j2, a_shape) && j0 < i0 ==> #[trigger] moved(
                        c@,
                        a@,
                        a_shape,
                        perm,
                        j0,
                        j1,
                        j2,
                    ),
            decreases d0 - i0,
        {
            let mut i1: usize = 0;
            while i1 < d1
                invariant
                    d0 == a_shape[0],
                    d1 == a_shape[1],
                    d2 == a_shape[2],
                    is_axis_permutation(perm),
                    new_shape[0] == a_shape[perm[0] as int],
                    new_shape[1] == a_shape[perm[1] as int],
                    d0 * d1 * d2 <= usize::MAX,
                    a@.len() == d0 * d1 * d2,
                    c@.len() == d0 * d1 * d2,
                    i0 < d0,
                    i1 <= d1,
                    forall|j0: int, j1: int, j2: int|
                        in_box(j0, j1, j2, a_shape) && (j0 < i0 || (j0 == i0 && j1 < i1))
                            ==> #[trigger] moved(c@, a@, a_shape, perm, j0, j1, j2),
                decreases d1 - i1,
            {
                let mut i2: usize = 0;
                while i2 < d2
                    invariant
                        d0 == a_shape[0],
                        d1 == a_shape[1],
                        d2 == a_shape[2],
                        is_axis_permutation(perm),
                        new_shape[0] == a_shape[perm[0] as int],
                        new_shape[1] == a_shape[perm[1] as int],
                        d0 * d1 * d2 <= usize::MAX,
                        a@.len() == d0 * d1 * d2,
                        c@.len() == d0 * d1 * d2,
                        i0 < d0,
                        i1 < d1,
                        i2 <= d2,
                        forall|j0: int, j1: int, j2: int|
                            in_box(j0, j1, j2, a_shape) && (j0 < i0 || (j0 == i0 && j1 < i1) || (j0
                                == i0 && j1 == i1 && j2 < i2)) ==> #[trigger] moved(
                                c@,
                                a@,
                                a_shape,
                                perm,
                                j0,
                                j1,
                                j2,
                            ),
                    decreases d2 - i2,
                {
                    let ghost (x0, x1, x2) = (i0 as int, i1 as int, i2 as int);
                    proof {
                        lemma_box_index(x0, x1, x2, d0 as int, d1 as int, d2 as int);
                        lemma_permuted_index(x0, x1, x2, a_shape, perm);
                    }
                    let src_idx = i0 + i1 * d0 + i2 * d0 * d1;
                    let indices = [i0, i1, i2];
                    let new_i0 = indices[perm[0]];
                    let new_i1 = indices[perm[1]];
                    let new_i2 = indices[perm[2]];
                    proof {
                        let e0 = new_shape[0] as int;
                        let e1 = new_shape[1] as int;
                        let e2 = a_shape[perm[2] as int] as int;
                        assert(new_i0 == axis(x0, x1, x2, perm[0] as int));
                        assert(new_i1 == axis(x0, x1, x2, perm[1] as int));
                        assert(new_i2 == axis(x0, x1, x2, perm[2] as int));
                        assert(e0 == axis(d0 as int, d1 as int, d2 as int, perm[0] as int));
                        assert(e1 == axis(d0 as int, d1 as int, d2 as int, perm[1] as int));
                        assert(e2 == axis(d0 as int, d1 as int, d2 as int, perm[2] as int));
                        lemma_box_index(new_i0 as int, new_i1 as int, new_i2 as int, e0, e1, e2);
                        lemma_permuted_volume(d0 as int, d1 as int, d2 as int, perm);
                    }
                    let dst_idx = new_i0 + new_i1 * new_shape[0] + new_i2 * new_shape[0] * new_shape[1];
                    assert(dst_idx == permuted_index(x0, x1, x2, a_shape, perm));
                    let ghost before = c@;
                    c[dst_idx] = a[src_idx];
                    proof {
                        assert forall|j0: int, j1: int, j2: int|
                            in_box(j0, j1, j2, a_shape) && (j0 < i0 || (j0 == i0 && j1 < i1) || (j0
                                == i0 && j1 == i1 && j2 < i2 + 1)) implies #[trigger] moved(
                            c@,
                            a@,
                            a_shape,
                            perm,
                            j0,
                            j1,
                            j2,
                        ) by {
                            if !(j0 == x0 && j1 == x1 && j2 == x2) {
                                assert(moved(before, a@, a_shape, perm, j0, j1, j2));
                                lemma_permuted_index(j0, j1, j2, a_shape, perm);
                            }
                        }
                    }
                    i2 = i2 + 1;
                }
                i1 = i1 + 1;
            }
            i0 = i0 + 1;
        }
        Ok(())
    }
}

} // verus!
