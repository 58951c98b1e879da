//! Algebraic laws of the library, stated over the sequence models that the
//! operations' contracts speak of and proved once for all values.

use vstd::arithmetic::div_mod::lemma_div_pos_is_pos;
use vstd::arithmetic::div_mod::lemma_fundamental_div_mod;
use vstd::arithmetic::div_mod::lemma_mod_bound;
use vstd::arithmetic::div_mod::lemma_multiply_divide_lt;
use vstd::arithmetic::mul::lemma_mul_is_commutative;
use vstd::prelude::*;

use crate::matrix::add_grid;
use crate::matrix::can_add_grid;
use crate::matrix::flat_of;
use crate::matrix::grid_wf;
use crate::matrix::row_of;
use crate::matrix::transpose_of;
use crate::matrix::unflatten;
use crate::matrix::zero_grid;
use crate::vector::add_seq;
use crate::vector::can_add;
use crate::vector::zero_seq;

verus! {

/// Additive identity for vectors: adding the all-zero vector of matching
/// length gives back the vector unchanged, and every element-wise sum is
/// trivially in scalar range.
pub proof fn lemma_add_zero_vector(s: Seq<i64>)
    ensures
        can_add(s, zero_seq(s.len())),
        add_seq(s, zero_seq(s.len())) == s,
{
    assert(add_seq(s, zero_seq(s.len())) =~= s);
}

/// Additive identity for matrices: adding the all-zero grid of the same
/// dimensions gives back the grid unchanged, column by column.
pub proof fn lemma_add_zero_matrix(m: Seq<Seq<i64>>, rows: nat)
    requires
        grid_wf(m, rows as int),
    ensures
        can_add_grid(m, zero_grid(rows, m.len())),
        add_grid(m, zero_grid(rows, m.len())) == m,
{
    let z = zero_grid(rows, m.len());
    assert forall|j: int| 0 <= j < m.len() implies can_add(#[trigger] m[j], z[j]) && add_grid(
        m,
        z,
    )[j] == m[j] by {
        assert(z[j] == zero_seq(rows));
        assert(m[j].len() == rows);
        lemma_add_zero_vector(m[j]);
        assert(add_grid(m, z)[j] == add_seq(m[j], z[j]));
    }
    assert(add_grid(m, z) =~= m);
}

/// Construction round trip: laying a flat sequence of `rows * cols`
/// scalars out as columns and flattening the columns again gives back the
/// original sequence, element for element and in the same order.
pub proof fn lemma_flat_round_trip(s: Seq<i64>, rows: int, cols: int)
    requires
        rows >= 0,
        cols >= 0,
        s.len() == rows * cols,
    ensures
        grid_wf(unflatten(s, rows, cols), rows),
        flat_of(unflatten(s, rows, cols), rows) == s,
{
    let g = unflatten(s, rows, cols);
    lemma_mul_is_commutative(cols, rows);
    if rows > 0 {
        assert forall|k: int| 0 <= k < s.len() implies flat_of(g, rows)[k] == s[k] by {
            lemma_multiply_divide_lt(k, rows, cols);
            lemma_div_pos_is_pos(k, rows);
            lemma_mod_bound(k, rows);
            lemma_fundamental_div_mod(k, rows);
            lemma_mul_is_commutative(k / rows, rows);
            assert(flat_of(g, rows)[k] == g[k / rows][k % rows]);
            assert(g[k / rows][k % rows] == s[(k / rows) * rows + k % rows]);
            assert((k / rows) * rows + k % rows == k);
        }
        assert(flat_of(g, rows) =~= s);
    } else {
        assert(rows * cols == 0) by (nonlinear_arith)
            requires
                rows == 0,
        ;
        assert(flat_of(g, rows) =~= s);
    }
}

/// Mirroring twice is the identity: the transpose of the transpose of a
/// well-shaped grid is the grid itself, for square and non-square shapes
/// alike.
pub proof fn lemma_mirror_involution(g: Seq<Seq<i64>>, rows: int)
    requires
        rows >= 0,
        grid_wf(g, rows),
    ensures
        grid_wf(transpose_of(g, rows), g.len() as int),
        transpose_of(transpose_of(g, rows), g.len() as int) == g,
{
    let t = transpose_of(g, rows);
    let tt = transpose_of(t, g.len() as int);
    assert forall|r: int| 0 <= r < t.len() implies #[trigger] t[r].len() == g.len() by {
        assert(t[r] == row_of(g, r));
    }
    assert forall|j: int| 0 <= j < g.len() implies #[trigger] tt[j] == g[j] by {
        assert(tt[j] == row_of(t, j));
        assert(g[j].len() == rows);
        assert forall|i: int| 0 <= i < rows implies row_of(t, j)[i] == g[j][i] by {
            assert(row_of(t, j)[i] == t[i][j]);
            assert(t[i] == row_of(g, i));
        }
        assert(row_of(t, j) =~= g[j]);
    }
    assert(tt =~= g);
}

} // verus!
