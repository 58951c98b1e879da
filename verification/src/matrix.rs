//! Fixed-dimension matrices stored column-major.
//!
//! A `Rows x Cols` matrix owns `Cols` column vectors of `Rows` scalars each.
//! A single flattened index `k` addresses the scalar in column `k / Rows` at
//! position `k % Rows`. The multiplication algorithm first mirrors its
//! right-hand operand (a transpose), so that every output scalar is a dot
//! product of two columns.

use vstd::arithmetic::div_mod::lemma_div_pos_is_pos;
use vstd::arithmetic::div_mod::lemma_mod_bound;
use vstd::arithmetic::div_mod::lemma_multiply_divide_lt;
use vstd::arithmetic::mul::lemma_mul_inequality;
use vstd::arithmetic::mul::lemma_mul_is_commutative;
use vstd::arithmetic::mul::lemma_mul_is_distributive_add_other_way;
use vstd::prelude::*;

use crate::vector::add_seq;
use crate::vector::can_add;
use crate::vector::can_dot;
use crate::vector::dot_ints;
use crate::vector::zero_seq;
use crate::vector::Vector;

verus! {

/// A well-shaped column grid: every column holds exactly `rows` scalars.
pub open spec fn grid_wf(g: Seq<Seq<i64>>, rows: int) -> bool {
    forall|j: int| 0 <= j < g.len() ==> #[trigger] g[j].len() == rows
}

/// The all-zero grid of `cols` columns with `rows` scalars each: the model
/// of a default matrix.
pub open spec fn zero_grid(rows: nat, cols: nat) -> Seq<Seq<i64>> {
    Seq::new(cols, |j: int| zero_seq(rows))
}

/// Column-by-column element-wise sum of two same-shape grids.
pub open spec fn add_grid(a: Seq<Seq<i64>>, b: Seq<Seq<i64>>) -> Seq<Seq<i64>> {
    Seq::new(a.len(), |j: int| add_seq(a[j], b[j]))
}

/// Every element-wise sum of corresponding columns stays in scalar range.
pub open spec fn can_add_grid(a: Seq<Seq<i64>>, b: Seq<Seq<i64>>) -> bool {
    forall|j: int| 0 <= j < a.len() ==> can_add(#[trigger] a[j], b[j])
}

/// The views of a sequence of plain scalar vectors, column by column.
pub open spec fn views_of(d: Seq<Vec<i64>>) -> Seq<Seq<i64>> {
    Seq::new(d.len(), |j: int| d[j]@)
}

/// Row `r` of a column grid: the scalar at position `r` of every column, in
/// column order.
pub open spec fn row_of(g: Seq<Seq<i64>>, r: int) -> Seq<i64> {
    Seq::new(g.len(), |j: int| g[j][r])
}

/// The transpose of a column grid whose columns hold `rows` scalars: a grid
/// of `rows` columns, column `r` of which is row `r` of the original.
pub open spec fn transpose_of(g: Seq<Seq<i64>>, rows: int) -> Seq<Seq<i64>> {
    Seq::new(rows as nat, |r: int| row_of(g, r))
}

/// The flattened scalars of a column grid whose columns hold `rows`
/// scalars: the columns laid end to end, so that flattened index `k` names
/// the scalar in column `k / rows` at position `k % rows`.
pub open spec fn flat_of(g: Seq<Seq<i64>>, rows: int) -> Seq<i64> {
    Seq::new((g.len() * rows) as nat, |k: int| g[k / rows][k % rows])
}

/// The column grid that lays a flat sequence of `rows * cols` scalars out
/// as `cols` columns of `rows` scalars each, in flattened-index order.
pub open spec fn unflatten(s: Seq<i64>, rows: int, cols: int) -> Seq<Seq<i64>> {
    Seq::new(cols as nat, |j: int| Seq::new(rows as nat, |i: int| s[j * rows + i]))
}

/// The matrix product of grid `a` (the left operand, as columns) with grid
/// `b` of `b_rows` rows: column `c`, position `r` of the result is the dot
/// product of column `c` of `a` with row `r` of `b`.
pub open spec fn product_grid(a: Seq<Seq<i64>>, b: Seq<Seq<i64>>, b_rows: int) -> Seq<Seq<i64>> {
    Seq::new(
        a.len(),
        |c: int| Seq::new(b_rows as nat, |r: int| dot_ints(a[c], row_of(b, r)) as i64),
    )
}

/// Every dot product taken by the multiplication stays in scalar range.
pub open spec fn can_mul_grids(a: Seq<Seq<i64>>, b: Seq<Seq<i64>>, b_rows: int) -> bool {
    forall|c: int, r: int| #![trigger a[c], row_of(b, r)]
        0 <= c < a.len() && 0 <= r < b_rows ==> can_dot(a[c], row_of(b, r))
}

/// Facts about a flattened index: the dimensions are positive and the
/// index splits into a valid column number and a valid position in it.
proof fn lemma_flat_pos(rows: int, cols: int, k: int)
    requires
        rows >= 0,
        cols >= 0,
        0 <= k < rows * cols,
    ensures
        rows > 0,
        cols > 0,
        0 <= k / rows < cols,
        0 <= k % rows < rows,
{
    assert(rows > 0 && cols > 0) by (nonlinear_arith)
        requires
            rows >= 0,
            cols >= 0,
            0 <= k < rows * cols,
    ;
    lemma_multiply_divide_lt(k, rows, cols);
    lemma_div_pos_is_pos(k, rows);
    lemma_mod_bound(k, rows);
}

/// A matrix of scalars with fixed dimensions, stored as a sequence of
/// column vectors. The dimensions are chosen at construction; no operation
/// changes them.
#[derive(Debug)]
pub struct Matrix {
    rows: usize,
    cols: usize,
    columns: Vec<Vector>,
}

impl View for Matrix {
    type V = Seq<Seq<i64>>;

    closed spec fn view(&self) -> Seq<Seq<i64>> {
        Seq::new(self.columns@.len(), |j: int| self.columns@[j]@)
    }
}

impl Matrix {
    /// The number of scalars in each column.
    pub closed spec fn spec_rows(&self) -> int {
        self.rows as int
    }

    /// The number of columns.
    pub closed spec fn spec_cols(&self) -> int {
        self.cols as int
    }

    /// Well-formed: exactly `cols` columns of exactly `rows` scalars each,
    /// and the total scalar count fits a flattened index.
    pub closed spec fn wf(&self) -> bool {
        &&& self.columns@.len() == self.cols
        &&& grid_wf(self@, self.rows as int)
        &&& self.rows * self.cols <= usize::MAX
    }

    /// What well-formedness says of the view, for callers outside this
    /// module.
    pub proof fn lemma_wf_shape(&self)
        requires
            self.wf(),
        ensures
            self@.len() == self.spec_cols(),
            grid_wf(self@, self.spec_rows()),
            self.spec_rows() * self.spec_cols() <= usize::MAX,
    {
    }

    /// The number of scalars in each column.
    pub fn num_rows(&self) -> (n: usize)
        ensures
            n == self.spec_rows(),
    {
        self.rows
    }

    /// The number of columns.
    pub fn num_cols(&self) -> (n: usize)
        ensures
            n == self.spec_cols(),
    {
        self.cols
    }

    /// The total number of scalars, which is also the exclusive bound on
    /// flattened indices.
    pub fn size(&self) -> (n: usize)
        requires
            self.wf(),
        ensures
            n == self.spec_rows() * self.spec_cols(),
    {
        self.rows * self.cols
    }

    /// The all-zero matrix of the given dimensions.
    pub fn zero(rows: usize, cols: usize) -> (m: Matrix)
        requires
            rows * cols <= usize::MAX,
        ensures
            m.wf(),
            m.spec_rows() == rows,
            m.spec_cols() == cols,
            m@ == zero_grid(rows as nat, cols as nat),
    {
        let mut columns: Vec<Vector> = Vec::new();
        for j in 0..cols
            invariant
                columns@.len() == j,
                forall|a: int| 0 <= a < j ==> #[trigger] columns@[a]@ == zero_seq(rows as nat),
        {
            columns.push(Vector::zero(rows));
        }
        let m = Matrix { rows, cols, columns };
        proof {
            assert(m@ =~= zero_grid(rows as nat, cols as nat));
        }
        m
    }

    /// A matrix built from a literal: `cols` columns of `rows` scalars
    /// each, every inner sequence becoming one column. A literal of any
    /// other shape is rejected.
    pub fn new(rows: usize, cols: usize, data: &Vec<Vec<i64>>) -> (r: Option<Matrix>)
        ensures
            r is Some <==> {
                &&& rows * cols <= usize::MAX
                &&& data@.len() == cols
                &&& forall|j: int| 0 <= j < cols ==> #[trigger] data@[j]@.len() == rows
            },
            r matches Some(m) ==> {
                &&& m.wf()
                &&& m.spec_rows() == rows
                &&& m.spec_cols() == cols
                &&& m@ == views_of(data@)
            },
    {
        if rows.checked_mul(cols).is_none() {
            return None;
        }
        if data.len() != cols {
            return None;
        }
        let mut columns: Vec<Vector> = Vec::new();
        for j in 0..cols
            invariant
                data@.len() == cols,
                columns@.len() == j,
                forall|a: int| 0 <= a < j ==> #[trigger] columns@[a]@ == data@[a]@,
                forall|a: int| 0 <= a < j ==> #[trigger] data@[a]@.len() == rows,
        {
            let col = &data[j];
            if col.len() != rows {
                return None;
            }
            columns.push(Vector::from_vec(copy_scalars(col)));
        }
        let m = Matrix { rows, cols, columns };
        proof {
            assert(m@ =~= views_of(data@));
        }
        Some(m)
    }

    /// Collects exactly `rows * cols` scalars, in flattened-index order,
    /// into a matrix. A sequence of any other length is rejected: no
    /// truncation and no padding.
    pub fn from_flat(rows: usize, cols: usize, elems: Vec<i64>) -> (r: Option<Matrix>)
        ensures
            r is Some <==> (rows * cols <= usize::MAX && elems@.len() == rows * cols),
            r matches Some(m) ==> {
                &&& m.wf()
                &&& m.spec_rows() == rows
                &&& m.spec_cols() == cols
                &&& m@ == unflatten(elems@, rows as int, cols as int)
            },
    {
        let total = match rows.checked_mul(cols) {
            Some(t) => t,
            None => {
                return None;
            },
        };
        if elems.len() != total {
            return None;
        }
        let mut columns: Vec<Vector> = Vec::new();
        for j in 0..cols
            invariant
                elems@.len() == rows * cols,
                rows * cols <= usize::MAX,
                columns@.len() == j,
                forall|a: int| 0 <= a < j ==> #[trigger] columns@[a]@ == unflatten(
                    elems@,
                    rows as int,
                    cols as int,
                )[a],
        {
            proof {
                lemma_mul_inequality(j as int + 1, cols as int, rows as int);
                lemma_mul_is_distributive_add_other_way(rows as int, j as int, 1);
                lemma_mul_is_commutative(cols as int, rows as int);
                assert(j * rows + rows <= rows * cols);
            }
            let base = j * rows;
            let mut col: Vec<i64> = Vec::new();
            for i in 0..rows
                invariant
                    elems@.len() == rows * cols,
                    rows * cols <= usize::MAX,
                    base == j * rows,
                    base + rows <= rows * cols,
                    col@.len() == i,
                    forall|b: int| 0 <= b < i ==> col@[b] == elems@[j * rows + b],
            {
                col.push(elems[base + i]);
            }
            proof {
                assert(col@ =~= unflatten(elems@, rows as int, cols as int)[j as int]);
            }
            columns.push(Vector::from_vec(col));
        }
        let m = Matrix { rows, cols, columns };
        proof {
            assert(m@ =~= unflatten(elems@, rows as int, cols as int));
            assert forall|j: int| 0 <= j < m@.len() implies #[trigger] m@[j].len() == rows by {
                assert(m@[j] == unflatten(elems@, rows as int, cols as int)[j]);
            }
        }
        Some(m)
    }

    /// The flattened scalars, in flattened-index order: the columns laid
    /// end to end.
    pub fn to_flat(&self) -> (r: Vec<i64>)
        requires
            self.wf(),
        ensures
            r@ == flat_of(self@, self.spec_rows()),
    {
        let ghost flat = flat_of(self@, self.spec_rows());
        proof {
            lemma_mul_is_commutative(self.spec_cols(), self.spec_rows());
            assert(flat.len() == self.spec_cols() * self.spec_rows());
            assert(0 * self.spec_rows() == 0) by (nonlinear_arith);
        }
        let mut out: Vec<i64> = Vec::new();
        for j in 0..self.cols
            invariant
                self.wf(),
                flat == flat_of(self@, self.spec_rows()),
                flat.len() == self.spec_cols() * self.spec_rows(),
                out@.len() == j * self.spec_rows(),
                forall|k: int| 0 <= k < j * self.spec_rows() ==> out@[k] == flat[k],
        {
            proof {
                lemma_mul_inequality(j as int + 1, self.spec_cols(), self.spec_rows());
                lemma_mul_is_distributive_add_other_way(self.spec_rows(), j as int, 1);
                assert(j * self.spec_rows() + self.spec_rows() <= self.spec_cols()
                    * self.spec_rows());
            }
            let colref = &self.columns[j];
            proof {
                assert(colref@ == self@[j as int]);
                assert(self@[j as int].len() == self.spec_rows());
            }
            for i in 0..self.rows
                invariant
                    self.wf(),
                    flat == flat_of(self@, self.spec_rows()),
                    flat.len() == self.spec_cols() * self.spec_rows(),
                    colref == self.columns@[j as int],
                    colref@ == self@[j as int],
                    colref@.len() == self.spec_rows(),
                    j < self.cols,
                    j * self.spec_rows() + self.spec_rows() <= self.spec_cols()
                        * self.spec_rows(),
                    out@.len() == j * self.spec_rows() + i,
                    forall|k: int| 0 <= k < j * self.spec_rows() + i ==> out@[k] == flat[k],
            {
                proof {
                    let rows = self.spec_rows();
                    let k = j * rows + i;
                    vstd::arithmetic::div_mod::lemma_fundamental_div_mod_converse_div(
                        k,
                        rows,
                        j as int,
                        i as int,
                    );
                    vstd::arithmetic::div_mod::lemma_fundamental_div_mod_converse_mod(
                        k,
                        rows,
                        j as int,
                        i as int,
                    );
                    assert(flat[k] == self@[j as int][i as int]);
                }
                out.push(colref.index(i));
            }
        }
        proof {
            assert(out@ =~= flat);
        }
        out
    }

    /// The scalar at flattened index `k`, which must be below
    /// `rows * cols`: the scalar in column `k / rows` at position
    /// `k % rows`.
    pub fn index(&self, k: usize) -> (x: i64)
        requires
            self.wf(),
            k < self.spec_rows() * self.spec_cols(),
        ensures
            x == flat_of(self@, self.spec_rows())[k as int],
    {
        proof {
            lemma_flat_pos(self.spec_rows(), self.spec_cols(), k as int);
            lemma_mul_is_commutative(self.spec_cols(), self.spec_rows());
        }
        let c = k / self.rows;
        let s = k % self.rows;
        let colref = &self.columns[c];
        proof {
            assert(colref@ == self@[c as int]);
            assert(self@[c as int].len() == self.spec_rows());
        }
        colref.index(s)
    }

    /// Bounds-checked scalar access by flattened index: a value exactly
    /// when `k` is below `rows * cols`.
    pub fn get(&self, k: usize) -> (r: Option<i64>)
        requires
            self.wf(),
        ensures
            r is Some <==> k < self.spec_rows() * self.spec_cols(),
            r matches Some(x) ==> x == flat_of(self@, self.spec_rows())[k as int],
    {
        if k < self.size() {
            Some(self.index(k))
        } else {
            None
        }
    }

    /// Writes `value` at flattened index `k`, leaving every other scalar
    /// as it was: column `k / rows` is updated at position `k % rows`.
    pub fn set_index(&mut self, k: usize, value: i64)
        requires
            old(self).wf(),
            k < old(self).spec_rows() * old(self).spec_cols(),
        ensures
            final(self).wf(),
            final(self).spec_rows() == old(self).spec_rows(),
            final(self).spec_cols() == old(self).spec_cols(),
            final(self)@ == old(self)@.update(
                k as int / old(self).spec_rows(),
                old(self)@[k as int / old(self).spec_rows()].update(
                    k as int % old(self).spec_rows(),
                    value,
                ),
            ),
    {
        proof {
            lemma_flat_pos(self.spec_rows(), self.spec_cols(), k as int);
        }
        let c = k / self.rows;
        let s = k % self.rows;
        proof {
            assert(self.columns@[c as int]@ == self@[c as int]);
            assert(self@[c as int].len() == self.spec_rows());
        }
        let mut updated = Vector::from_vec(self.columns[c].to_elems());
        updated.set_index(s, value);
        self.columns.set(c, updated);
        proof {
            let rows = old(self).spec_rows();
            assert(self@ =~= old(self)@.update(
                k as int / rows,
                old(self)@[k as int / rows].update(k as int % rows, value),
            ));
        }
    }

    /// Element-wise sum with a matrix of the same dimensions.
    pub fn add(&self, rhs: &Matrix) -> (r: Matrix)
        requires
            self.wf(),
            rhs.wf(),
            self.spec_rows() == rhs.spec_rows(),
            self.spec_cols() == rhs.spec_cols(),
            can_add_grid(self@, rhs@),
        ensures
            r.wf(),
            r.spec_rows() == self.spec_rows(),
            r.spec_cols() == self.spec_cols(),
            r@ == add_grid(self@, rhs@),
    {
        let mut columns: Vec<Vector> = Vec::new();
        for j in 0..self.cols
            invariant
                self.wf(),
                rhs.wf(),
                self.spec_rows() == rhs.spec_rows(),
                self.spec_cols() == rhs.spec_cols(),
                can_add_grid(self@, rhs@),
                columns@.len() == j,
                forall|a: int| 0 <= a < j ==> #[trigger] columns@[a]@ == add_grid(self@, rhs@)[a],
        {
            let a = &self.columns[j];
            let b = &rhs.columns[j];
            proof {
                assert(a@ == self@[j as int] && b@ == rhs@[j as int]);
                assert(self@[j as int].len() == self.spec_rows());
                assert(rhs@[j as int].len() == rhs.spec_rows());
                assert(can_add(self@[j as int], rhs@[j as int]));
            }
            columns.push(a.add(b));
        }
        let m = Matrix { rows: self.rows, cols: self.cols, columns };
        proof {
            assert(m@ =~= add_grid(self@, rhs@));
            assert forall|j: int| 0 <= j < m@.len() implies #[trigger] m@[j].len()
                == self.spec_rows() by {
                assert(m@[j] == add_grid(self@, rhs@)[j]);
            }
        }
        m
    }

    /// The dimension-swapping mirror: a `Cols x Rows` matrix whose column
    /// `r` is row `r` of this matrix — the algebraic transpose.
    pub fn diag_mirror(&self) -> (r: Matrix)
        requires
            self.wf(),
        ensures
            r.wf(),
            r.spec_rows() == self.spec_cols(),
            r.spec_cols() == self.spec_rows(),
            r@ == transpose_of(self@, self.spec_rows()),
    {
        let mut columns: Vec<Vector> = Vec::new();
        for i in 0..self.rows
            invariant
                self.wf(),
                columns@.len() == i,
                forall|a: int| 0 <= a < i ==> #[trigger] columns@[a]@ == row_of(self@, a),
        {
            let mut col: Vec<i64> = Vec::new();
            for j in 0..self.cols
                invariant
                    self.wf(),
                    i < self.rows,
                    col@.len() == j,
                    forall|b: int| 0 <= b < j ==> col@[b] == self@[b][i as int],
            {
                let colref = &self.columns[j];
                proof {
                    assert(colref@ == self@[j as int]);
                    assert(self@[j as int].len() == self.spec_rows());
                }
                col.push(colref.index(i));
            }
            proof {
                assert(col@ =~= row_of(self@, i as int));
            }
            columns.push(Vector::from_vec(col));
        }
        let m = Matrix { rows: self.cols, cols: self.rows, columns };
        proof {
            lemma_mul_is_commutative(self.spec_rows(), self.spec_cols());
            assert(m@ =~= transpose_of(self@, self.spec_rows()));
            assert forall|a: int| 0 <= a < m@.len() implies #[trigger] m@[a].len()
                == self.spec_cols() by {
                assert(m@[a] == transpose_of(self@, self.spec_rows())[a]);
            }
        }
        m
    }

    /// Matrix multiplication. The right-hand operand must have as many
    /// columns as this matrix has scalars per column; the result has this
    /// matrix's column count and the right-hand operand's rows. Column `c`,
    /// position `r` of the result is the dot product of column `c` of this
    /// matrix with row `r` of `rhs`, computed by mirroring `rhs` once and
    /// taking dot products of columns.
    pub fn mul(&self, rhs: &Matrix) -> (r: Matrix)
        requires
            self.wf(),
            rhs.wf(),
            self.spec_rows() == rhs.spec_cols(),
            rhs.spec_rows() * self.spec_cols() <= usize::MAX,
            can_mul_grids(self@, rhs@, rhs.spec_rows()),
        ensures
            r.wf(),
            r.spec_rows() == rhs.spec_rows(),
            r.spec_cols() == self.spec_cols(),
            r@ == product_grid(self@, rhs@, rhs.spec_rows()),
    {
        let mirrored = rhs.diag_mirror();
        let out_rows = mirrored.cols;
        let mut columns: Vec<Vector> = Vec::new();
        for c in 0..self.cols
            invariant
                self.wf(),
                rhs.wf(),
                mirrored.wf(),
                self.spec_rows() == rhs.spec_cols(),
                out_rows == rhs.spec_rows(),
                mirrored.spec_rows() == rhs.spec_cols(),
                mirrored.spec_cols() == rhs.spec_rows(),
                mirrored@ == transpose_of(rhs@, rhs.spec_rows()),
                can_mul_grids(self@, rhs@, rhs.spec_rows()),
                columns@.len() == c,
                forall|a: int| 0 <= a < c ==> #[trigger] columns@[a]@ == product_grid(
                    self@,
                    rhs@,
                    rhs.spec_rows(),
                )[a],
        {
            let lhs_col = &self.columns[c];
            let mut col: Vec<i64> = Vec::new();
            for r in 0..out_rows
                invariant
                    self.wf(),
                    rhs.wf(),
                    mirrored.wf(),
                    self.spec_rows() == rhs.spec_cols(),
                    out_rows == rhs.spec_rows(),
                    mirrored.spec_rows() == rhs.spec_cols(),
                    mirrored.spec_cols() == rhs.spec_rows(),
                    mirrored@ == transpose_of(rhs@, rhs.spec_rows()),
                    can_mul_grids(self@, rhs@, rhs.spec_rows()),
                    c < self.cols,
                    lhs_col == self.columns@[c as int],
                    col@.len() == r,
                    forall|b: int| 0 <= b < r ==> col@[b] == product_grid(
                        self@,
                        rhs@,
                        rhs.spec_rows(),
                    )[c as int][b],
            {
                let rhs_row = &mirrored.columns[r];
                proof {
                    assert(rhs_row@ == mirrored@[r as int]);
                    assert(mirrored@[r as int] == row_of(rhs@, r as int));
                    assert(lhs_col@ == self@[c as int]);
                    assert(self@[c as int].len() == self.spec_rows());
                    assert(row_of(rhs@, r as int).len() == rhs@.len());
                    assert(rhs@.len() == rhs.spec_cols()) by {
                        rhs.lemma_wf_shape();
                    }
                    assert(can_dot(self@[c as int], row_of(rhs@, r as int)));
                }
                col.push(lhs_col.dot(rhs_row));
            }
            proof {
                assert(col@ =~= product_grid(self@, rhs@, rhs.spec_rows())[c as int]);
            }
            columns.push(Vector::from_vec(col));
        }
        let m = Matrix { rows: out_rows, cols: self.cols, columns };
        proof {
            assert(m@ =~= product_grid(self@, rhs@, rhs.spec_rows()));
            assert forall|a: int| 0 <= a < m@.len() implies #[trigger] m@[a].len()
                == rhs.spec_rows() by {
                assert(m@[a] == product_grid(self@, rhs@, rhs.spec_rows())[a]);
            }
        }
        m
    }
}

/// A fresh scalar vector holding the same values as `src`, in order.
fn copy_scalars(src: &Vec<i64>) -> (out: Vec<i64>)
    ensures
        out@ == src@,
{
    let n = src.len();
    let mut out: Vec<i64> = Vec::new();
    for i in 0..n
        invariant
            n == src@.len(),
            out@.len() == i,
            forall|j: int| 0 <= j < i ==> out@[j] == src@[j],
    {
        out.push(src[i]);
    }
    proof {
        assert(out@ =~= src@);
    }
    out
}

} // verus!
