//! Properties of the library as a whole, stated over the models that the
//! operations' contracts use, and proved.
use vstd::prelude::*;
use std::ops::{Add, Mul, Sub};
use vstd::std_specs::cmp::PartialEqSpec;
use vstd::std_specs::ops::{AddSpec, MulSpec, SubSpec};
use crate::matrix::{has_shape, rows_of, Matrix};
use crate::seqs::{
    seq_add_req, seq_scale_req, seq_sub_req,
    after_calls, transpose,
    column, dot, dot_req, flatten, mat_add, mat_mul, mat_scale, mat_sub, seq_add, seq_sub,
    unflatten,
};
use crate::vector::Vector;
use crate::sums::{
    col_sums, lemma_dot_is_sum, lemma_sum_exchange, lemma_sum_mul_left, lemma_sum_mul_right,
    products, ring_laws, row_sums,
};

verus! {

/// Laying `rows` rows of `cols` elements end to end gives `rows * cols`
/// elements, element `i` of row `j` landing at `j * cols + i`.
proof fn lemma_flatten_index<T>(m: Seq<Seq<T>>, rows: nat, cols: nat)
    requires
        has_shape(m, rows, cols),
    ensures
        flatten(m).len() == rows * cols,
        forall|j: int, i: int|
            0 <= j < rows && 0 <= i < cols ==> #[trigger] flatten(m)[j * cols + i] == m[j][i],
    decreases rows,
{
    if rows > 0 {
        let prefix = m.drop_last();
        let r1 = (rows - 1) as nat;
        assert(has_shape(prefix, r1, cols)) by {
            assert forall|j: int| 0 <= j < r1 implies (#[trigger] prefix[j]).len() == cols by {
                assert(prefix[j] == m[j]);
            }
        }
        lemma_flatten_index(prefix, r1, cols);
        assert(m.last() == m[rows - 1]);
        assert(r1 * cols + cols == rows * cols) by (nonlinear_arith)
            requires
                r1 + 1 == rows,
        ;
        assert forall|j: int, i: int| 0 <= j < rows && 0 <= i < cols implies #[trigger] flatten(
            m,
        )[j * cols + i] == m[j][i] by {
            if j < r1 {
                assert(j * cols + i < r1 * cols) by (nonlinear_arith)
                    requires
                        0 <= j < r1,
                        0 <= i < cols,
                ;
                assert(0 <= j * cols) by (nonlinear_arith)
                    requires
                        0 <= j,
                        0 <= cols,
                ;
                assert(prefix[j] == m[j]);
            } else {
                assert(j == r1);
            }
        }
    }
}

/// Cutting a row-major sequence into rows and laying them end to end again
/// gives the sequence back.
pub proof fn law_flatten_unflatten<T>(s: Seq<T>, rows: nat, cols: nat)
    requires
        s.len() == rows * cols,
    ensures
        has_shape(unflatten(s, rows, cols), rows, cols),
        flatten(unflatten(s, rows, cols)) == s,
{
    let u = unflatten(s, rows, cols);
    assert forall|j: int| 0 <= j < rows implies (#[trigger] u[j]).len() == cols by {
        assert(0 <= j * cols && j * cols + cols <= rows * cols) by (nonlinear_arith)
            requires
                0 <= j < rows,
        ;
    }
    lemma_flatten_index(u, rows, cols);
    let f = flatten(u);
    assert forall|t: int| 0 <= t < s.len() implies #[trigger] f[t] == s[t] by {
        let j = t / (cols as int);
        let i = t % (cols as int);
        assert(cols > 0) by (nonlinear_arith)
            requires
                0 <= t < rows * cols,
        ;
        assert(t == j * cols + i && 0 <= i < cols && 0 <= j < rows) by (nonlinear_arith)
            requires
                cols > 0,
                0 <= t < rows * cols,
                j == t / (cols as int),
                i == t % (cols as int),
        ;
        assert(0 <= j * cols && j * cols + cols <= rows * cols) by (nonlinear_arith)
            requires
                0 <= j < rows,
        ;
        assert(f[j * cols + i] == u[j][i]);
    }
    assert(f =~= s);
}

/// Laying rows end to end and cutting the result into rows again gives the
/// rows back.
pub proof fn law_unflatten_flatten<T>(m: Seq<Seq<T>>, rows: nat, cols: nat)
    requires
        has_shape(m, rows, cols),
    ensures
        flatten(m).len() == rows * cols,
        unflatten(flatten(m), rows, cols) == m,
{
    lemma_flatten_index(m, rows, cols);
    let u = unflatten(flatten(m), rows, cols);
    assert forall|j: int| 0 <= j < rows implies #[trigger] u[j] == m[j] by {
        assert(0 <= j * cols && j * cols + cols <= rows * cols) by (nonlinear_arith)
            requires
                0 <= j < rows,
        ;
        assert forall|i: int| 0 <= i < cols implies #[trigger] u[j][i] == m[j][i] by {
            assert(flatten(m)[j * cols + i] == m[j][i]);
        }
        assert(u[j] =~= m[j]);
    }
    assert(u =~= m);
}

/// `Matrix::from_flat_array(arr)` and `Matrix::new(rows)` build the same
/// matrix exactly when `arr` lists the elements of `rows` row by row.
pub proof fn law_from_flat_array_matches_new<T, const R: usize, const C: usize, const N: usize>(
    rows: [[T; C]; R],
    arr: [T; N],
)
    requires
        N == R * C,
    ensures
        unflatten(arr@, R as nat, C as nat) == rows_of(rows) <==> arr@ == flatten(rows_of(rows)),
{
    let m = rows_of(rows);
    assert(has_shape(m, R as nat, C as nat));
    law_unflatten_flatten(m, R as nat, C as nat);
    law_flatten_unflatten(arr@, R as nat, C as nat);
}

/// Element `i` of the vector `a + b` is `a[i] + b[i]`, and the sum may be
/// computed exactly when each of those may; likewise for `a - b`.
pub proof fn law_vector_add_sub_entrywise<
    T: Copy + Add<Output = T> + Sub<Output = T>,
    const N: usize,
>(a: Vector<T, N>, b: Vector<T, N>)
    ensures
        a.add_req(b) <==> forall|i: int| 0 <= i < N ==> #[trigger] a@[i].add_req(b@[i]),
        forall|i: int| 0 <= i < N ==> #[trigger] a.add_spec(b)@[i] == a@[i].add_spec(b@[i]),
        a.sub_req(b) <==> forall|i: int| 0 <= i < N ==> #[trigger] a@[i].sub_req(b@[i]),
        forall|i: int| 0 <= i < N ==> #[trigger] a.sub_spec(b)@[i] == a@[i].sub_spec(b@[i]),
{
    Vector::<T, N>::lemma_len(a);
    Vector::<T, N>::lemma_len(b);
    Vector::<T, N>::lemma_view_from_view(seq_add(a@, b@));
    Vector::<T, N>::lemma_view_from_view(seq_sub(a@, b@));
}

/// Element `(i, j)` of the matrix `a + b` is `a[(i, j)] + b[(i, j)]`, and
/// the sum may be computed exactly when each of those may; likewise for
/// `a - b`.
pub proof fn law_matrix_add_sub_entrywise<
    T: Copy + Add<Output = T> + Sub<Output = T>,
    const R: usize,
    const C: usize,
>(a: Matrix<T, R, C>, b: Matrix<T, R, C>)
    ensures
        a.add_req(b) <==> forall|j: int, i: int|
            0 <= j < R && 0 <= i < C ==> #[trigger] a@[j][i].add_req(b@[j][i]),
        forall|j: int, i: int|
            0 <= j < R && 0 <= i < C ==> #[trigger] a.add_spec(b)@[j][i] == a@[j][i].add_spec(
                b@[j][i],
            ),
        a.sub_req(b) <==> forall|j: int, i: int|
            0 <= j < R && 0 <= i < C ==> #[trigger] a@[j][i].sub_req(b@[j][i]),
        forall|j: int, i: int|
            0 <= j < R && 0 <= i < C ==> #[trigger] a.sub_spec(b)@[j][i] == a@[j][i].sub_spec(
                b@[j][i],
            ),
{
    Matrix::<T, R, C>::lemma_shape(a);
    Matrix::<T, R, C>::lemma_shape(b);
    Matrix::<T, R, C>::lemma_view_from_view(mat_add(a@, b@));
    Matrix::<T, R, C>::lemma_view_from_view(mat_sub(a@, b@));
    if forall|j: int, i: int| 0 <= j < R && 0 <= i < C ==> #[trigger] a@[j][i].add_req(b@[j][i]) {
        assert forall|j: int| 0 <= j < R implies seq_add_req(#[trigger] a@[j], b@[j]) by {
            assert forall|i: int| 0 <= i < a@[j].len() implies (#[trigger] a@[j][i]).add_req(
                b@[j][i],
            ) by {}
        }
    }
    if forall|j: int, i: int| 0 <= j < R && 0 <= i < C ==> #[trigger] a@[j][i].sub_req(b@[j][i]) {
        assert forall|j: int| 0 <= j < R implies seq_sub_req(#[trigger] a@[j], b@[j]) by {
            assert forall|i: int| 0 <= i < a@[j].len() implies (#[trigger] a@[j][i]).sub_req(
                b@[j][i],
            ) by {}
        }
    }
    if a.add_req(b) {
        assert forall|j: int, i: int| 0 <= j < R && 0 <= i < C implies #[trigger] a@[j][i].add_req(
            b@[j][i],
        ) by {
            assert(seq_add_req(a@[j], b@[j]));
        }
    }
    if a.sub_req(b) {
        assert forall|j: int, i: int| 0 <= j < R && 0 <= i < C implies #[trigger] a@[j][i].sub_req(
            b@[j][i],
        ) by {
            assert(seq_sub_req(a@[j], b@[j]));
        }
    }
}

/// Element `(i, j)` of the matrix `m * s` is `m[(i, j)] * s`, and the product
/// may be computed exactly when each of those may.
pub proof fn law_matrix_scale_entrywise<T: Copy + Mul<Output = T>, const R: usize, const C: usize>(
    m: Matrix<T, R, C>,
    s: T,
)
    ensures
        m.mul_req(s) <==> forall|j: int, i: int|
            0 <= j < R && 0 <= i < C ==> #[trigger] m@[j][i].mul_req(s),
        forall|j: int, i: int|
            0 <= j < R && 0 <= i < C ==> #[trigger] m.mul_spec(s)@[j][i] == m@[j][i].mul_spec(s),
{
    Matrix::<T, R, C>::lemma_shape(m);
    Matrix::<T, R, C>::lemma_view_from_view(mat_scale(m@, s));
    if forall|j: int, i: int| 0 <= j < R && 0 <= i < C ==> #[trigger] m@[j][i].mul_req(s) {
        assert forall|j: int| 0 <= j < R implies seq_scale_req(#[trigger] m@[j], s) by {
            assert forall|i: int| 0 <= i < m@[j].len() implies (#[trigger] m@[j][i]).mul_req(s) by {}
        }
    }
    if m.mul_req(s) {
        assert forall|j: int, i: int| 0 <= j < R && 0 <= i < C implies #[trigger] m@[j][i].mul_req(
            s,
        ) by {
            assert(seq_scale_req(m@[j], s));
        }
    }
}

/// Entry `(c, r)` of the matrix product `a * b` sums, from the left, the
/// products of row `r` of `a` with column `c` of `b`: its first partial sum
/// is `a[r][0] * b[0][c]`, and each next one adds `a[r][k] * b[k][c]`.
pub proof fn law_matrix_product_entrywise<
    T: Copy + Add<Output = T> + Mul<Output = T>,
    const LR: usize,
    const N: usize,
    const RC: usize,
>(a: Matrix<T, LR, N>, b: Matrix<T, N, RC>)
    requires
        N > 0,
    ensures
        forall|r: int, c: int|
            0 <= r < LR && 0 <= c < RC ==> #[trigger] a.mul_spec(b)@[r][c] == dot(
                a@[r],
                column(b@, c),
                N as nat,
            ),
        forall|r: int, c: int|
            0 <= r < LR && 0 <= c < RC ==> #[trigger] dot(a@[r], column(b@, c), 1) == a@[r][0].mul_spec(
                b@[0][c],
            ),
        forall|r: int, c: int, k: int|
            0 <= r < LR && 0 <= c < RC && 1 <= k < N ==> #[trigger] dot(
                a@[r],
                column(b@, c),
                (k + 1) as nat,
            ) == dot(a@[r], column(b@, c), k as nat).add_spec(a@[r][k].mul_spec(b@[k][c])),
{
    Matrix::<T, LR, N>::lemma_shape(a);
    Matrix::<T, N, RC>::lemma_shape(b);
    Matrix::<T, LR, RC>::lemma_view_from_view(mat_mul(a@, b@, N as nat, RC as nat));
}

/// Element `i` of row `j` of a row-major sequence cut into rows of `cols`
/// elements is element `j * cols + i` of the sequence, so
/// `Matrix::from_flat_array(arr)[(i, j)]` is `arr[j * C + i]`.
pub proof fn law_unflatten_entrywise<T>(s: Seq<T>, rows: nat, cols: nat)
    requires
        s.len() == rows * cols,
    ensures
        forall|j: int, i: int|
            0 <= j < rows && 0 <= i < cols ==> #[trigger] unflatten(s, rows, cols)[j][i] == s[j
                * cols + i],
{
    assert forall|j: int, i: int| 0 <= j < rows && 0 <= i < cols implies #[trigger] unflatten(
        s,
        rows,
        cols,
    )[j][i] == s[j * cols + i] by {
        assert(0 <= j * cols && j * cols + cols <= rows * cols) by (nonlinear_arith)
            requires
                0 <= j < rows,
        ;
    }
}

/// Element `r` of column `c` of the transpose handed out by the column
/// iterators is element `c` of row `r`.
pub proof fn law_transpose_entrywise<T, const R: usize, const C: usize>(m: Matrix<T, R, C>)
    ensures
        transpose(m@, C as nat).len() == C,
        forall|c: int, r: int|
            0 <= c < C && 0 <= r < R ==> #[trigger] transpose(m@, C as nat)[c][r] == m@[r][c],
{
    Matrix::<T, R, C>::lemma_shape(m);
}

/// Vector addition commutes wherever the elements' addition does.
pub proof fn law_vector_add_commutes<T: Copy + Add<Output = T>, const N: usize>(
    a: Vector<T, N>,
    b: Vector<T, N>,
)
    requires
        forall|x: T, y: T|
            #[trigger] x.add_req(y) ==> y.add_req(x) && x.add_spec(y) == y.add_spec(x),
    ensures
        a.add_req(b) ==> b.add_req(a) && a.add_spec(b) == b.add_spec(a),
{
    Vector::<T, N>::lemma_len(a);
    Vector::<T, N>::lemma_len(b);
    if a.add_req(b) {
        assert forall|i: int| 0 <= i < b@.len() implies (#[trigger] b@[i]).add_req(a@[i]) by {
            assert(a@[i].add_req(b@[i]));
        }
        assert(seq_add(a@, b@) =~= seq_add(b@, a@)) by {
            assert forall|i: int| 0 <= i < a@.len() implies seq_add(a@, b@)[i] == seq_add(
                b@,
                a@,
            )[i] by {
                assert(a@[i].add_req(b@[i]));
            }
        }
    }
}

/// Adding a vector and then subtracting it gives back what it was added to,
/// wherever that holds of the elements.
pub proof fn law_vector_add_sub_cancel<T: Copy + Add<Output = T> + Sub<Output = T>, const N: usize>(
    a: Vector<T, N>,
    b: Vector<T, N>,
)
    requires
        forall|x: T, y: T|
            #[trigger] x.add_req(y) ==> x.add_spec(y).sub_req(y) && x.add_spec(y).sub_spec(y)
                == x,
    ensures
        a.add_req(b) ==> a.add_spec(b).sub_req(b) && a.add_spec(b).sub_spec(b) == a,
{
    Vector::<T, N>::lemma_len(a);
    Vector::<T, N>::lemma_len(b);
    if a.add_req(b) {
        let s = a.add_spec(b);
        Vector::<T, N>::lemma_view_from_view(seq_add(a@, b@));
        assert(s@ == seq_add(a@, b@));
        assert forall|i: int| 0 <= i < s@.len() implies (#[trigger] s@[i]).sub_req(b@[i]) by {
            assert(a@[i].add_req(b@[i]));
        }
        assert(seq_sub(s@, b@) =~= a@) by {
            assert forall|i: int| 0 <= i < a@.len() implies seq_sub(s@, b@)[i] == a@[i] by {
                assert(a@[i].add_req(b@[i]));
            }
        }
        Vector::<T, N>::lemma_from_view(a);
    }
}

/// Matrix addition commutes wherever the elements' addition does.
pub proof fn law_matrix_add_commutes<T: Copy + Add<Output = T>, const R: usize, const C: usize>(
    a: Matrix<T, R, C>,
    b: Matrix<T, R, C>,
)
    requires
        forall|x: T, y: T|
            #[trigger] x.add_req(y) ==> y.add_req(x) && x.add_spec(y) == y.add_spec(x),
    ensures
        a.add_req(b) ==> b.add_req(a) && a.add_spec(b) == b.add_spec(a),
{
    Matrix::<T, R, C>::lemma_shape(a);
    Matrix::<T, R, C>::lemma_shape(b);
    if a.add_req(b) {
        assert forall|j: int, i: int| 0 <= j < R && 0 <= i < C implies (#[trigger] b@[j][i]).add_req(
            a@[j][i],
        ) && a@[j][i].add_spec(b@[j][i]) == b@[j][i].add_spec(a@[j][i]) by {
            assert(a@[j][i].add_req(b@[j][i]));
        }
        assert(mat_add(a@, b@) =~= mat_add(b@, a@)) by {
            assert forall|j: int| 0 <= j < R implies mat_add(a@, b@)[j] =~= mat_add(b@, a@)[j] by {}
        }
    }
}

/// Adding a matrix and then subtracting it gives back what it was added to,
/// wherever that holds of the elements.
pub proof fn law_matrix_add_sub_cancel<
    T: Copy + Add<Output = T> + Sub<Output = T>,
    const R: usize,
    const C: usize,
>(a: Matrix<T, R, C>, b: Matrix<T, R, C>)
    requires
        forall|x: T, y: T|
            #[trigger] x.add_req(y) ==> x.add_spec(y).sub_req(y) && x.add_spec(y).sub_spec(y)
                == x,
    ensures
        a.add_req(b) ==> a.add_spec(b).sub_req(b) && a.add_spec(b).sub_spec(b) == a,
{
    Matrix::<T, R, C>::lemma_shape(a);
    Matrix::<T, R, C>::lemma_shape(b);
    if a.add_req(b) {
        let s = a.add_spec(b);
        Matrix::<T, R, C>::lemma_view_from_view(mat_add(a@, b@));
        assert(s@ == mat_add(a@, b@));
        assert forall|j: int, i: int| 0 <= j < R && 0 <= i < C implies (#[trigger] s@[j][i]).sub_req(
            b@[j][i],
        ) && s@[j][i].sub_spec(b@[j][i]) == a@[j][i] by {
            assert(a@[j][i].add_req(b@[j][i]));
        }
        assert(mat_sub(s@, b@) =~= a@) by {
            assert forall|j: int| 0 <= j < R implies mat_sub(s@, b@)[j] =~= a@[j] by {}
        }
        Matrix::<T, R, C>::lemma_from_view(a);
    }
}

/// A matrix added to itself is the matrix times `two`, wherever an element
/// added to itself is that element times `two`.
pub proof fn law_matrix_add_self_is_times_two<T: Copy + Add<Output = T> + Mul<Output = T>, const R: usize, const C: usize>(
    m: Matrix<T, R, C>,
    two: T,
)
    requires
        forall|x: T|
            #![trigger x.add_req(x)]
            #![trigger x.mul_req(two)]
            x.add_req(x) == x.mul_req(two) && x.add_spec(x) == x.mul_spec(two),
    ensures
        m.add_req(m) == m.mul_req(two),
        m.add_spec(m) == m.mul_spec(two),
{
    Matrix::<T, R, C>::lemma_shape(m);
    assert(mat_add(m@, m@) =~= mat_scale(m@, two)) by {
        assert forall|j: int| 0 <= j < R implies mat_add(m@, m@)[j] =~= mat_scale(m@, two)[j] by {
            assert forall|i: int| 0 <= i < C implies mat_add(m@, m@)[j][i] == mat_scale(
                m@,
                two,
            )[j][i] by {
                assert(m@[j][i].add_req(m@[j][i]) == m@[j][i].mul_req(two));
            }
        }
    }
    assert(m.add_req(m) == m.mul_req(two)) by {
        if m.add_req(m) {
            assert forall|j: int, i: int| 0 <= j < R && 0 <= i < C implies (#[trigger] m@[j][i]).mul_req(two) by {
                assert(m@[j][i].add_req(m@[j][i]));
            }
        }
        if m.mul_req(two) {
            assert forall|j: int, i: int| 0 <= j < R && 0 <= i < C implies (#[trigger] m@[j][i]).add_req(m@[j][i]) by {
                assert(m@[j][i].mul_req(two));
            }
        }
    }
}

/// `zero` and `one` are the neutral elements of the element type's `+` and
/// `*`, `zero` absorbs under `*`, and every such sum and product may be
/// computed.
pub open spec fn unit_laws<T: Add<Output = T> + Mul<Output = T>>(zero: T, one: T) -> bool {
    &&& forall|x: T|
        #![trigger x.add_req(zero)]
        #![trigger x.add_spec(zero)]
        x.add_req(zero) && x.add_spec(zero) == x
    &&& forall|x: T|
        #![trigger zero.add_req(x)]
        #![trigger zero.add_spec(x)]
        zero.add_req(x) && zero.add_spec(x) == x
    &&& forall|x: T|
        #![trigger x.mul_req(one)]
        #![trigger x.mul_spec(one)]
        x.mul_req(one) && x.mul_spec(one) == x
    &&& forall|x: T|
        #![trigger one.mul_req(x)]
        #![trigger one.mul_spec(x)]
        one.mul_req(x) && one.mul_spec(x) == x
    &&& forall|x: T|
        #![trigger x.mul_req(zero)]
        #![trigger x.mul_spec(zero)]
        x.mul_req(zero) && x.mul_spec(zero) == zero
    &&& forall|x: T|
        #![trigger zero.mul_req(x)]
        #![trigger zero.mul_spec(x)]
        zero.mul_req(x) && zero.mul_spec(x) == zero
}

/// The square matrix with `one` on its diagonal and `zero` elsewhere.
pub open spec fn is_identity<T>(m: Seq<Seq<T>>, n: nat, zero: T, one: T) -> bool {
    &&& has_shape(m, n, n)
    &&& forall|r: int, c: int|
        0 <= r < n && 0 <= c < n ==> #[trigger] m[r][c] == if r == c {
            one
        } else {
            zero
        }
}

/// The primitive integers' `0` and `1` obey `unit_laws`.
pub proof fn law_unit_laws_i32()
    ensures
        unit_laws(0i32, 1i32),
{
}

/// Summing `a[k] * e[k]`, where `e` is `one` at `c` and `zero` elsewhere,
/// picks out `a[c]`.
proof fn lemma_dot_unit_right<T: Add<Output = T> + Mul<Output = T>>(
    a: Seq<T>,
    e: Seq<T>,
    c: int,
    k: nat,
    zero: T,
    one: T,
)
    requires
        unit_laws(zero, one),
        1 <= k <= e.len(),
        k <= a.len(),
        forall|q: int| 0 <= q < e.len() ==> #[trigger] e[q] == if q == c {
            one
        } else {
            zero
        },
    ensures
        dot_req(a, e, k),
        dot(a, e, k) == if 0 <= c < k {
            a[c]
        } else {
            zero
        },
    decreases k,
{
    if k > 1 {
        lemma_dot_unit_right(a, e, c, (k - 1) as nat, zero, one);
        assert(e[k - 1] == if k - 1 == c {
            one
        } else {
            zero
        });
    } else {
        assert(e[0] == if 0 == c {
            one
        } else {
            zero
        });
    }
}

/// Summing `e[k] * b[k]`, where `e` is `one` at `r` and `zero` elsewhere,
/// picks out `b[r]`.
proof fn lemma_dot_unit_left<T: Add<Output = T> + Mul<Output = T>>(
    e: Seq<T>,
    b: Seq<T>,
    r: int,
    k: nat,
    zero: T,
    one: T,
)
    requires
        unit_laws(zero, one),
        1 <= k <= e.len(),
        k <= b.len(),
        forall|q: int| 0 <= q < e.len() ==> #[trigger] e[q] == if q == r {
            one
        } else {
            zero
        },
    ensures
        dot_req(e, b, k),
        dot(e, b, k) == if 0 <= r < k {
            b[r]
        } else {
            zero
        },
    decreases k,
{
    if k > 1 {
        lemma_dot_unit_left(e, b, r, (k - 1) as nat, zero, one);
        assert(e[k - 1] == if k - 1 == r {
            one
        } else {
            zero
        });
    } else {
        assert(e[0] == if 0 == r {
            one
        } else {
            zero
        });
    }
}

/// Multiplying by the identity on the right changes nothing.
pub proof fn law_mul_identity_right<
    T: Copy + Add<Output = T> + Mul<Output = T>,
    const R: usize,
    const C: usize,
>(m: Matrix<T, R, C>, id: Matrix<T, C, C>, zero: T, one: T)
    requires
        R > 0,
        C > 0,
        T::obeys_add_spec(),
        T::obeys_mul_spec(),
        unit_laws(zero, one),
        is_identity(id@, C as nat, zero, one),
    ensures
        m.mul_req(id),
        m.mul_spec(id) == m,
{
    Matrix::<T, R, C>::lemma_shape(m);
    assert forall|r: int, c: int| 0 <= r < R && 0 <= c < C implies #[trigger] dot_req(
        m@[r],
        column(id@, c),
        C as nat,
    ) && dot(m@[r], column(id@, c), C as nat) == m@[r][c] by {
        let e = column(id@, c);
        assert forall|q: int| 0 <= q < e.len() implies #[trigger] e[q] == if q == c {
            one
        } else {
            zero
        } by {
            assert(id@[q][c] == if q == c {
                one
            } else {
                zero
            });
        }
        lemma_dot_unit_right(m@[r], e, c, C as nat, zero, one);
    }
    assert(mat_mul(m@, id@, C as nat, C as nat) =~= m@) by {
        assert forall|r: int| 0 <= r < R implies mat_mul(m@, id@, C as nat, C as nat)[r] =~= m@[r] by {
            assert forall|c: int| 0 <= c < C implies mat_mul(m@, id@, C as nat, C as nat)[r][c]
                == m@[r][c] by {
                assert(dot_req(m@[r], column(id@, c), C as nat));
            }
        }
    }
    Matrix::<T, R, C>::lemma_from_view(m);
}

/// Multiplying by the identity on the left changes nothing.
pub proof fn law_mul_identity_left<
    T: Copy + Add<Output = T> + Mul<Output = T>,
    const R: usize,
    const C: usize,
>(id: Matrix<T, R, R>, m: Matrix<T, R, C>, zero: T, one: T)
    requires
        R > 0,
        T::obeys_add_spec(),
        T::obeys_mul_spec(),
        unit_laws(zero, one),
        is_identity(id@, R as nat, zero, one),
    ensures
        id.mul_req(m),
        id.mul_spec(m) == m,
{
    Matrix::<T, R, C>::lemma_shape(m);
    assert forall|r: int, c: int| 0 <= r < R && 0 <= c < C implies #[trigger] dot_req(
        id@[r],
        column(m@, c),
        R as nat,
    ) && dot(id@[r], column(m@, c), R as nat) == m@[r][c] by {
        let e = id@[r];
        assert forall|q: int| 0 <= q < e.len() implies #[trigger] e[q] == if q == r {
            one
        } else {
            zero
        } by {
            assert(id@[r][q] == if r == q {
                one
            } else {
                zero
            });
        }
        lemma_dot_unit_left(e, column(m@, c), r, R as nat, zero, one);
    }
    assert(mat_mul(id@, m@, R as nat, C as nat) =~= m@) by {
        assert forall|r: int| 0 <= r < R implies mat_mul(id@, m@, R as nat, C as nat)[r] =~= m@[r] by {
            assert forall|c: int| 0 <= c < C implies mat_mul(id@, m@, R as nat, C as nat)[r][c]
                == m@[r][c] by {
                assert(dot_req(id@[r], column(m@, c), R as nat));
            }
        }
    }
    Matrix::<T, R, C>::lemma_from_view(m);
}

/// For `i32` matrices of any shape, multiplying by the identity on either
/// side changes nothing: `ir * m == m` and `m * ic == m`.
pub proof fn law_mul_identity_i32<const R: usize, const C: usize>(
    m: Matrix<i32, R, C>,
    ir: Matrix<i32, R, R>,
    ic: Matrix<i32, C, C>,
)
    requires
        R > 0,
        C > 0,
        is_identity(ir@, R as nat, 0i32, 1i32),
        is_identity(ic@, C as nat, 0i32, 1i32),
    ensures
        ir.mul_req(m),
        ir.mul_spec(m) == m,
        m.mul_req(ic),
        m.mul_spec(ic) == m,
{
    law_unit_laws_i32();
    law_mul_identity_left(ir, m, 0i32, 1i32);
    law_mul_identity_right(m, ic, 0i32, 1i32);
}

/// Where the elements' `==` is equality, so is the vectors'.
pub proof fn law_vector_eq_is_equality<T: PartialEq, const N: usize>(a: Vector<T, N>, b: Vector<T, N>)
    requires
        T::obeys_eq_spec(),
        forall|x: T, y: T| #[trigger] x.eq_spec(&y) <==> x == y,
    ensures
        Vector::<T, N>::obeys_eq_spec(),
        a.eq_spec(&b) <==> a == b,
{
    Vector::<T, N>::lemma_len(a);
    Vector::<T, N>::lemma_len(b);
    Vector::<T, N>::lemma_from_view(a);
    Vector::<T, N>::lemma_from_view(b);
    if a.eq_spec(&b) {
        assert(a@ =~= b@);
    }
}

/// Where the elements' `==` is equality, so is the matrices'.
pub proof fn law_matrix_eq_is_equality<T: PartialEq, const R: usize, const C: usize>(
    a: Matrix<T, R, C>,
    b: Matrix<T, R, C>,
)
    requires
        T::obeys_eq_spec(),
        forall|x: T, y: T| #[trigger] x.eq_spec(&y) <==> x == y,
    ensures
        Matrix::<T, R, C>::obeys_eq_spec(),
        a.eq_spec(&b) <==> a == b,
{
    Matrix::<T, R, C>::lemma_shape(a);
    Matrix::<T, R, C>::lemma_shape(b);
    Matrix::<T, R, C>::lemma_from_view(a);
    Matrix::<T, R, C>::lemma_from_view(b);
    if a.eq_spec(&b) {
        assert forall|j: int| 0 <= j < R implies a@[j] =~= b@[j] by {
            assert forall|i: int| 0 <= i < C implies a@[j][i] == b@[j][i] by {
                assert(a@[j][i].eq_spec(&b@[j][i]));
            }
        }
        assert(a@ =~= b@);
    }
}

/// The array that `Vector::into_inner` gives back has the view of the array
/// `Vector::new` was given, so it is that array.
pub proof fn law_into_inner_undoes_new<T, const N: usize>(array: [T; N], back: [T; N])
    requires
        back@ == array@,
    ensures
        back == array,
{
    broadcast use vstd::array::group_array_axioms;

    assert(back =~= array);
}

/// Writing `v` at `(i, j)` through `Matrix::index_mut` and reading `(i, j)`
/// back gives `v`; every other element keeps its value.
pub proof fn law_read_after_write<T>(m: Seq<Seq<T>>, i: int, j: int, v: T)
    requires
        0 <= j < m.len(),
        0 <= i < m[j].len(),
    ensures
        ({
            let w = m.update(j, m[j].update(i, v));
            &&& w[j][i] == v
            &&& forall|j2: int, i2: int|
                0 <= j2 < m.len() && 0 <= i2 < m[j2].len() && (j2 != j || i2 != i) ==> w[j2][i2]
                    == m[j2][i2]
        }),
{
}

/// Calling `next` again and again on an iterator whose items left are `all`:
/// before call `k` (counting from 0) there are `all.len() - k` items left
/// and the call hands out `all[k]`, while `k < all.len()`; from then on
/// nothing is left and every call hands out nothing.
pub proof fn law_iteration_in_order<A>(all: Seq<A>, k: nat)
    ensures
        after_calls(all, k) == if k < all.len() {
            all.subrange(k as int, all.len() as int)
        } else {
            Seq::<A>::empty()
        },
        after_calls(all, k).len() > 0 <==> k < all.len(),
        k < all.len() ==> after_calls(all, k)[0] == all[k as int],
        after_calls(all, k).len() == if k < all.len() {
            all.len() - k
        } else {
            0
        },
    decreases k,
{
    if k == 0 {
        assert(all.subrange(0, all.len() as int) =~= all);
        if all.len() == 0 {
            assert(all =~= Seq::<A>::empty());
        }
    } else {
        law_iteration_in_order(all, (k - 1) as nat);
        if k < all.len() {
            assert(all.subrange(k - 1, all.len() as int).drop_first() =~= all.subrange(
                k as int,
                all.len() as int,
            ));
        }
    }
}

/// The chunks of a vector come out in order: before call `k` of
/// `VectorChunks::next` there are `N / I - k` chunks left and the call hands
/// out elements `k * I` up to `k * I + I`, while `k < N / I`; from then on
/// every call hands out `None`. So `size_hint` is the number of later calls
/// that hand out a chunk, and the chunks laid end to end are the vector.
pub proof fn law_chunks_in_order<T, const N: usize, const I: usize>(v: Vector<T, N>, k: nat)
    requires
        I > 0,
        N % I == 0,
    ensures
        ({
            let all = unflatten(v@, (N / I) as nat, I as nat);
            &&& after_calls(all, k).len() == if k < N / I {
                N / I - k
            } else {
                0
            }
            &&& forall|j: nat| j >= k ==> (#[trigger] after_calls(all, j).len() > 0 <==> j < N / I)
            &&& k < N / I ==> after_calls(all, k)[0] == v@.subrange(
                (k * I) as int,
                (k * I + I) as int,
            )
            &&& flatten(all) == v@
        }),
{
    Vector::<T, N>::lemma_len(v);
    let n = (N / I) as nat;
    let all = unflatten(v@, n, I as nat);
    assert(N == n * I) by (nonlinear_arith)
        requires
            I > 0,
            N % I == 0,
            n == N / I,
    ;
    law_iteration_in_order(all, k);
    assert forall|j: nat| j >= k implies (#[trigger] after_calls(all, j).len() > 0 <==> j < N / I) by {
        law_iteration_in_order(all, j);
    }
    law_flatten_unflatten(v@, n, I as nat);
}

/// `Matrix::rows` and `Matrix::rows_ref` hand out the rows in order: before
/// call `k` of `next` there are `R - k` rows left and the call hands out row
/// `k`, while `k < R`; from then on every call hands out `None`.
pub proof fn law_rows_in_order<T, const R: usize, const C: usize>(m: Matrix<T, R, C>, k: nat)
    ensures
        after_calls(m@, k).len() == if k < R {
            R - k
        } else {
            0
        },
        k < R ==> after_calls(m@, k)[0] == m@[k as int],
        k >= R ==> after_calls(m@, k).len() == 0,
{
    Matrix::<T, R, C>::lemma_shape(m);
    law_iteration_in_order(m@, k);
}

/// `Matrix::cols` and `Matrix::cols_ref` hand out the columns in order:
/// before call `k` of `next` there are `C - k` columns left and the call
/// hands out column `k`, whose element `r` is element `k` of row `r`, while
/// `k < C`; from then on every call hands out `None`.
pub proof fn law_cols_in_order<T, const R: usize, const C: usize>(m: Matrix<T, R, C>, k: nat)
    ensures
        after_calls(transpose(m@, C as nat), k).len() == if k < C {
            C - k
        } else {
            0
        },
        k < C ==> after_calls(transpose(m@, C as nat), k)[0] == column(m@, k as int),
        k < C ==> forall|r: int|
            0 <= r < R ==> #[trigger] after_calls(transpose(m@, C as nat), k)[0][r] == m@[r][k as int],
        k >= C ==> after_calls(transpose(m@, C as nat), k).len() == 0,
{
    Matrix::<T, R, C>::lemma_shape(m);
    law_iteration_in_order(transpose(m@, C as nat), k);
}

/// Entry `(c, r)` of `(a * b) * c` and of `a * (b * c)`, as sums over the
/// grid of the products `a[r][q] * b[q][s] * c[s][c]`.
proof fn lemma_triple_product_entry<T: Add<Output = T> + Mul<Output = T>>(
    a: Seq<Seq<T>>,
    b: Seq<Seq<T>>,
    cm: Seq<Seq<T>>,
    q_n: nat,
    s_n: nat,
    u_n: nat,
    r: int,
    c: int,
)
    requires
        ring_laws::<T>(),
        q_n >= 1,
        s_n >= 1,
        0 <= r < a.len(),
        0 <= c < u_n,
        a[r].len() == q_n,
        has_shape(b, q_n, s_n),
        has_shape(cm, s_n, u_n),
    ensures
        dot(mat_mul(a, b, q_n, s_n)[r], column(cm, c), s_n) == dot(
            a[r],
            column(mat_mul(b, cm, s_n, u_n), c),
            q_n,
        ),
{
    let ab = mat_mul(a, b, q_n, s_n);
    let bc = mat_mul(b, cm, s_n, u_n);
    let g = Seq::new(
        q_n,
        |q: int| Seq::new(s_n, |s: int| a[r][q].mul_spec(b[q][s]).mul_spec(cm[s][c])),
    );
    // the left side, column by column
    lemma_dot_is_sum(ab[r], column(cm, c), s_n);
    assert(products(ab[r], column(cm, c), s_n) =~= col_sums(g, s_n)) by {
        assert forall|s: int| 0 <= s < s_n implies #[trigger] products(
            ab[r],
            column(cm, c),
            s_n,
        )[s] == col_sums(g, s_n)[s] by {
            lemma_dot_is_sum(a[r], column(b, s), q_n);
            let terms = products(a[r], column(b, s), q_n);
            lemma_sum_mul_right(terms, cm[s][c]);
            assert(Seq::new(terms.len(), |i: int| terms[i].mul_spec(cm[s][c])) =~= column(g, s));
        }
    }
    // the right side, row by row
    lemma_dot_is_sum(a[r], column(bc, c), q_n);
    assert(products(a[r], column(bc, c), q_n) =~= row_sums(g)) by {
        assert forall|q: int| 0 <= q < q_n implies #[trigger] products(a[r], column(bc, c), q_n)[q]
            == row_sums(g)[q] by {
            lemma_dot_is_sum(b[q], column(cm, c), s_n);
            let terms = products(b[q], column(cm, c), s_n);
            lemma_sum_mul_left(a[r][q], terms);
            assert(Seq::new(terms.len(), |i: int| a[r][q].mul_spec(terms[i])) =~= g[q]) by {
                assert forall|s: int| 0 <= s < s_n implies a[r][q].mul_spec(terms[s]) == #[trigger] g[q][s] by {
                    assert(a[r][q].mul_spec(b[q][s]).mul_spec(cm[s][c]) == a[r][q].mul_spec(
                        b[q][s].mul_spec(cm[s][c]),
                    ));
                }
            }
        }
    }
    lemma_sum_exchange(g, s_n);
}

/// The matrix product is associative wherever the elements form a ring:
/// `(a * b) * c == a * (b * c)`.
pub proof fn law_mul_associative<
    T: Copy + Add<Output = T> + Mul<Output = T>,
    const P: usize,
    const Q: usize,
    const S: usize,
    const U: usize,
>(a: Matrix<T, P, Q>, b: Matrix<T, Q, S>, c: Matrix<T, S, U>)
    requires
        Q > 0,
        S > 0,
        ring_laws::<T>(),
    ensures
        a.mul_spec(b).mul_spec(c) == a.mul_spec(b.mul_spec(c)),
{
    Matrix::<T, P, Q>::lemma_shape(a);
    Matrix::<T, Q, S>::lemma_shape(b);
    Matrix::<T, S, U>::lemma_shape(c);
    let ab_view = mat_mul(a@, b@, Q as nat, S as nat);
    let bc_view = mat_mul(b@, c@, S as nat, U as nat);
    Matrix::<T, P, S>::lemma_view_from_view(ab_view);
    Matrix::<T, Q, U>::lemma_view_from_view(bc_view);
    let ab = a.mul_spec(b);
    let bc = b.mul_spec(c);
    assert(ab@ == ab_view);
    assert(bc@ == bc_view);
    assert(mat_mul(ab@, c@, S as nat, U as nat) =~= mat_mul(a@, bc@, Q as nat, U as nat)) by {
        assert forall|r: int| 0 <= r < P implies #[trigger] mat_mul(ab@, c@, S as nat, U as nat)[r]
            =~= mat_mul(a@, bc@, Q as nat, U as nat)[r] by {
            assert forall|cc: int| 0 <= cc < U implies #[trigger] mat_mul(ab@, c@, S as nat, U as nat)[r][cc]
                == mat_mul(a@, bc@, Q as nat, U as nat)[r][cc] by {
                lemma_triple_product_entry(a@, b@, c@, Q as nat, S as nat, U as nat, r, cc);
            }
        }
    }
}

} // verus!
