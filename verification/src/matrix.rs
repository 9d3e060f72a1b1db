//! `Matrix`: a fixed-size `R x C` matrix whose elements are stored inline.
use vstd::prelude::*;
use std::ops::{Add, Index, Mul, Sub};
use vstd::std_specs::ops::{AddSpec, AddSpecImpl, MulSpec, MulSpecImpl, SubSpec, SubSpecImpl};
use vstd::std_specs::cmp::{PartialEqSpec, PartialEqSpecImpl};
use crate::seqs::{
    column, dot, dot_req, lemma_array_with_view, mat_add, mat_add_req, mat_mul, mat_mul_req,
    mat_scale, mat_scale_req, mat_sub, mat_sub_req, overwrite, unflatten,
};
use crate::arrays::{array_from_fn, array_unwrap, array_wrap, empty_array};
use crate::vector::{default_array, Vector};

verus! {

broadcast use vstd::array::group_array_axioms;

/// A fixed-size matrix of `R` rows and `C` columns whose elements are stored
/// inline.
///
/// Elements are addressed as `(i, j)`: column `i`, row `j`.
#[derive(Debug)]
pub struct Matrix<T, const R: usize, const C: usize> {
    rows: [[T; C]; R],
}

impl<T: Clone, const R: usize, const C: usize> Clone for Matrix<T, R, C> {
    /// Each element cloned in place.
    fn clone(&self) -> (m: Self)
        ensures
            forall|j: int, i: int|
                0 <= j < R && 0 <= i < C ==> cloned::<T>(self@[j][i], #[trigger] m@[j][i]),
    {
        let rows = self.rows.clone();
        assert forall|j: int, i: int| 0 <= j < R && 0 <= i < C implies cloned::<T>(
            self.rows@[j]@[i],
            #[trigger] rows@[j]@[i],
        ) by {
            assert(cloned::<[T; C]>(self.rows@[j], rows@[j]));
        }
        Matrix { rows }
    }
}

impl<T: Copy, const R: usize, const C: usize> Copy for Matrix<T, R, C> {

}

/// The rows of a nested array, each as a sequence.
pub open spec fn rows_of<T, const R: usize, const C: usize>(a: [[T; C]; R]) -> Seq<Seq<T>> {
    Seq::new(R as nat, |j: int| a@[j]@)
}

impl<T, const R: usize, const C: usize> View for Matrix<T, R, C> {
    type V = Seq<Seq<T>>;

    /// The rows, top to bottom, each as its elements left to right.
    closed spec fn view(&self) -> Seq<Seq<T>> {
        rows_of(self.rows)
    }
}

/// The matrix holds `rows` rows of `cols` elements each.
pub open spec fn has_shape<T>(m: Seq<Seq<T>>, rows: nat, cols: nat) -> bool {
    &&& m.len() == rows
    &&& forall|j: int| 0 <= j < rows ==> (#[trigger] m[j]).len() == cols
}

impl<T, const R: usize, const C: usize> Matrix<T, R, C> {
    /// The matrix whose rows are `m`, for an `m` of shape `R x C`.
    pub closed spec fn from_view(m: Seq<Seq<T>>) -> Self {
        choose|x: Self| x@ == m
    }

    /// A matrix is determined by its rows.
    pub proof fn lemma_from_view(x: Self)
        ensures
            Self::from_view(x@) == x,
    {
        let c = Self::from_view(x@);
        assert forall|j: int| 0 <= j < R implies c.rows@[j] == x.rows@[j] by {
            assert(c@[j] == x@[j]);
            assert(c.rows@[j] =~= x.rows@[j]);
        }
        assert(c.rows =~= x.rows);
    }

    /// Every sequence of `R` rows of `C` elements is the view of a matrix.
    pub proof fn lemma_view_from_view(m: Seq<Seq<T>>)
        requires
            has_shape(m, R as nat, C as nat),
        ensures
            Self::from_view(m)@ == m,
    {
        let base = Matrix::<T, R, C> { rows: vstd::pervasive::arbitrary() };
        if R == 0 {
            assert(base@ =~= m);
        } else {
            let row0 = base.rows@[0];
            let rs = Seq::new(R as nat, |j: int| overwrite(row0, m[j], C as nat));
            assert forall|j: int| 0 <= j < R implies (#[trigger] rs[j])@ == m[j] by {
                lemma_array_with_view(row0, m[j]);
            }
            lemma_array_with_view(base.rows, rs);
            let w = Matrix { rows: overwrite(base.rows, rs, R as nat) };
            assert(w@ =~= m);
        }
    }

    /// Every matrix has `R` rows of `C` elements.
    pub proof fn lemma_shape(x: Self)
        ensures
            has_shape(x@, R as nat, C as nat),
    {
    }

    /// Builds the matrix from its rows.
    pub fn new(rows: [[T; C]; R]) -> (m: Self)
        ensures
            m@ == rows_of(rows),
    {
        Matrix { rows }
    }

    /// The rows, borrowed.
    pub(crate) fn rows_array(&self) -> (a: &[[T; C]; R])
        ensures
            rows_of(*a) == self@,
    {
        &self.rows
    }

    /// The number of rows and of columns.
    pub fn dim() -> (d: (usize, usize))
        ensures
            d == (R, C),
    {
        (R, C)
    }
}

impl<T, const R: usize, const C: usize> Matrix<T, R, C> {
    /// Builds the matrix from its elements in row-major order: element
    /// `(i, j)` is `arr[j * C + i]`.
    pub fn from_flat_array<const N: usize>(arr: [T; N]) -> (m: Self)
        requires
            N == R * C,
        ensures
            m@ == unflatten(arr@, R as nat, C as nat),
    {
        let ghost src = arr@;
        let mut places = array_wrap(arr);
        let mut rows: [Option<[T; C]>; R] = empty_array();
        for j in 0..R
            invariant
                N == R * C,
                src.len() == N,
                forall|k: int| j * C <= k < N ==> #[trigger] places@[k] == Some(src[k]),
                forall|r: int|
                    0 <= r < j ==> (#[trigger] rows@[r] matches Some(row) && row@ == src.subrange(
                        r * C,
                        r * C + C,
                    )),
        {
            proof {
                lemma_row_start(j as int, R as int, C as int);
            }
            let base = j * C;
            let mut part: [Option<T>; C] = empty_array();
            for i in 0..C
                invariant
                    base + C <= N,
                    base == j * C,
                    src.len() == N,
                    forall|k: int| base + i <= k < N ==> #[trigger] places@[k] == Some(src[k]),
                    forall|q: int| 0 <= q < i ==> #[trigger] part@[q] == Some(src[base + q]),
            {
                let x = places[base + i].take();
                part[i] = x;
            }
            let row = array_unwrap(part);
            assert(row@ =~= src.subrange(j * C, j * C + C));
            rows[j] = Some(row);
            assert((j + 1) * C == j * C + C) by (nonlinear_arith);
        }
        let m = Matrix { rows: array_unwrap(rows) };
        assert forall|r: int| 0 <= r < R implies #[trigger] m@[r] == unflatten(src, R as nat, C as nat)[r] by {
            assert(rows@[r] matches Some(row) && row@ == src.subrange(r * C, r * C + C));
        }
        assert(m@ =~= unflatten(src, R as nat, C as nat));
        m
    }

    /// Builds the matrix from a vector of its elements in row-major order.
    pub fn from_vector<const N: usize>(v: Vector<T, N>) -> (m: Self)
        requires
            N == R * C,
        ensures
            m@ == unflatten(v@, R as nat, C as nat),
    {
        Self::from_flat_array(v.into_inner())
    }
}

/// Row `j` of an `R x C` row-major layout starts at `j * C` and ends within it.
proof fn lemma_row_start(j: int, rows: int, cols: int)
    requires
        0 <= j < rows,
        cols >= 0,
    ensures
        0 <= j * cols,
        j * cols + cols <= rows * cols,
{
    assert(0 <= j * cols && j * cols + cols <= rows * cols) by (nonlinear_arith)
        requires
            0 <= j < rows,
            cols >= 0,
    ;
}

impl<T: Default, const R: usize, const C: usize> Default for Matrix<T, R, C> {
    /// Each element is what a call of `T::default()` gave.
    fn default() -> (m: Self)
        ensures
            forall|j: int, i: int|
                0 <= j < R && 0 <= i < C ==> call_ensures(T::default, (), #[trigger] m@[j][i]),
    {
        let rows: [[T; C]; R] = array_from_fn(
            (|_j: usize| -> (row: [T; C])
                ensures
                    forall|i: int| 0 <= i < C ==> call_ensures(T::default, (), #[trigger] row@[i]),
                {
                    let row = default_array();
                    row
                }),
        );
        Matrix { rows }
    }
}

impl<T: PartialEq, const R: usize, const C: usize> PartialEq for Matrix<T, R, C> {
    /// Element by element.
    fn eq(&self, other: &Self) -> (r: bool) {
        let mut j: usize = 0;
        while j < R
            invariant
                j <= R,
                T::obeys_eq_spec() ==> forall|r: int, c: int|
                    0 <= r < j && 0 <= c < C ==> (#[trigger] self@[r][c]).eq_spec(&other@[r][c]),
            decreases R - j,
        {
            let mut i: usize = 0;
            while i < C
                invariant
                    j < R,
                    i <= C,
                    T::obeys_eq_spec() ==> forall|r: int, c: int|
                        0 <= r < j && 0 <= c < C ==> (#[trigger] self@[r][c]).eq_spec(
                            &other@[r][c],
                        ),
                    T::obeys_eq_spec() ==> forall|c: int|
                        0 <= c < i ==> (#[trigger] self@[j as int][c]).eq_spec(
                            &other@[j as int][c],
                        ),
                decreases C - i,
            {
                let same = self.rows[j][i] == other.rows[j][i];
                if !same {
                    assert(T::obeys_eq_spec() ==> !self@[j as int][i as int].eq_spec(
                        &other@[j as int][i as int],
                    ));
                    return false;
                }
                i = i + 1;
            }
            j = j + 1;
        }
        true
    }
}

impl<T: PartialEq, const R: usize, const C: usize> PartialEqSpecImpl for Matrix<T, R, C> {
    open spec fn obeys_eq_spec() -> bool {
        T::obeys_eq_spec()
    }

    open spec fn eq_spec(&self, other: &Self) -> bool {
        forall|r: int, c: int|
            0 <= r < R && 0 <= c < C ==> (#[trigger] self@[r][c]).eq_spec(&other@[r][c])
    }
}

impl<T: Eq, const R: usize, const C: usize> Eq for Matrix<T, R, C> {

}

impl<T, const R: usize, const C: usize> Index<(usize, usize)> for Matrix<T, R, C> {
    type Output = T;

    /// Element `(i, j)`: column `i` of row `j`.
    fn index(&self, index: (usize, usize)) -> (e: &T)
        ensures
            *e == self@[index.1 as int][index.0 as int],
    {
        let (i, j) = index;
        &self.rows[j][i]
    }
}

impl<T, const R: usize, const C: usize> vstd::std_specs::core::IndexSpecImpl<(usize, usize)> for Matrix<T, R, C> {
    open spec fn index_req(&self, index: &(usize, usize)) -> bool {
        index.0 < C && index.1 < R
    }
}

impl<T, const R: usize, const C: usize> Matrix<T, R, C> {
    /// Element `(i, j)`, column `i` of row `j`, to write through; what is
    /// written there is what the matrix holds afterwards.
    pub fn index_mut(&mut self, index: (usize, usize)) -> (e: &mut T)
        requires
            index.0 < C,
            index.1 < R,
        ensures
            *e == old(self)@[index.1 as int][index.0 as int],
            final(self)@ == old(self)@.update(
                index.1 as int,
                old(self)@[index.1 as int].update(index.0 as int, *final(e)),
            ),
    {
        let (i, j) = index;
        &mut self.rows[j][i]
    }
}


impl<T: Copy + Add<Output = T>, const R: usize, const C: usize> Matrix<T, R, C> {
    fn zip_add(&self, other: &Self) -> (m: Self)
        requires
            mat_add_req(self@, other@),
        ensures
            T::obeys_add_spec() ==> m@ == mat_add(self@, other@),
            T::obeys_add_spec() ==> forall|j: int, i: int|
                0 <= j < R && 0 <= i < C ==> #[trigger] m@[j][i] == self@[j][i].add_spec(other@[j][i]),
    {
        let mut out = self.rows;
        for j in 0..R
            invariant
                mat_add_req(self@, other@),
                T::obeys_add_spec() ==> forall|r: int, c: int|
                    0 <= r < j && 0 <= c < C ==> (#[trigger] out@[r]@[c]) == self@[r][c].add_spec(
                        other@[r][c],
                    ),
        {
            let mut row = self.rows[j];
            for i in 0..C
                invariant
                    j < R,
                    mat_add_req(self@, other@),
                    T::obeys_add_spec() ==> forall|c: int|
                        0 <= c < i ==> (#[trigger] row@[c]) == self@[j as int][c].add_spec(
                            other@[j as int][c],
                        ),
            {
                assert(self@[j as int][i as int].add_req(other@[j as int][i as int]));
                row[i] = self.rows[j][i] + other.rows[j][i];
            }
            out[j] = row;
        }
        let m = Matrix { rows: out };
        proof {
            if T::obeys_add_spec() {
                assert forall|r: int| 0 <= r < R implies m@[r] =~= mat_add(self@, other@)[r] by {}
                assert(m@ =~= mat_add(self@, other@));
            }
        }
        m
    }
}

impl<T: Copy + Sub<Output = T>, const R: usize, const C: usize> Matrix<T, R, C> {
    fn zip_sub(&self, other: &Self) -> (m: Self)
        requires
            mat_sub_req(self@, other@),
        ensures
            T::obeys_sub_spec() ==> m@ == mat_sub(self@, other@),
            T::obeys_sub_spec() ==> forall|j: int, i: int|
                0 <= j < R && 0 <= i < C ==> #[trigger] m@[j][i] == self@[j][i].sub_spec(other@[j][i]),
    {
        let mut out = self.rows;
        for j in 0..R
            invariant
                mat_sub_req(self@, other@),
                T::obeys_sub_spec() ==> forall|r: int, c: int|
                    0 <= r < j && 0 <= c < C ==> (#[trigger] out@[r]@[c]) == self@[r][c].sub_spec(
                        other@[r][c],
                    ),
        {
            let mut row = self.rows[j];
            for i in 0..C
                invariant
                    j < R,
                    mat_sub_req(self@, other@),
                    T::obeys_sub_spec() ==> forall|c: int|
                        0 <= c < i ==> (#[trigger] row@[c]) == self@[j as int][c].sub_spec(
                            other@[j as int][c],
                        ),
            {
                assert(self@[j as int][i as int].sub_req(other@[j as int][i as int]));
                row[i] = self.rows[j][i] - other.rows[j][i];
            }
            out[j] = row;
        }
        let m = Matrix { rows: out };
        proof {
            if T::obeys_sub_spec() {
                assert forall|r: int| 0 <= r < R implies m@[r] =~= mat_sub(self@, other@)[r] by {}
                assert(m@ =~= mat_sub(self@, other@));
            }
        }
        m
    }
}

impl<T: Copy + Add<Output = T>, const R: usize, const C: usize> Add<Matrix<T, R, C>> for Matrix<T, R, C> {
    type Output = Matrix<T, R, C>;

    /// Element by element.
    fn add(self, rhs: Matrix<T, R, C>) -> (m: Matrix<T, R, C>)
        ensures
            T::obeys_add_spec() ==> m@ == mat_add(self@, rhs@),
            T::obeys_add_spec() ==> forall|j: int, i: int|
                0 <= j < R && 0 <= i < C ==> #[trigger] m@[j][i] == self@[j][i].add_spec(rhs@[j][i]),
    {
        let m = self.zip_add(&rhs);
        proof {
            Matrix::<T, R, C>::lemma_from_view(m);
        }
        m
    }
}

impl<T: Copy + Add<Output = T>, const R: usize, const C: usize> AddSpecImpl<Matrix<T, R, C>> for Matrix<T, R, C> {
    open spec fn obeys_add_spec() -> bool {
        T::obeys_add_spec()
    }

    open spec fn add_req(self, rhs: Matrix<T, R, C>) -> bool {
        mat_add_req(self@, rhs@)
    }

    open spec fn add_spec(self, rhs: Matrix<T, R, C>) -> Matrix<T, R, C> {
        Matrix::<T, R, C>::from_view(mat_add(self@, rhs@))
    }
}

impl<'a, T: Copy + Add<Output = T>, const R: usize, const C: usize> Add<Matrix<T, R, C>> for &'a Matrix<T, R, C> {
    type Output = Matrix<T, R, C>;

    /// Element by element.
    fn add(self, rhs: Matrix<T, R, C>) -> (m: Matrix<T, R, C>)
        ensures
            T::obeys_add_spec() ==> m@ == mat_add(self@, rhs@),
            T::obeys_add_spec() ==> forall|j: int, i: int|
                0 <= j < R && 0 <= i < C ==> #[trigger] m@[j][i] == self@[j][i].add_spec(rhs@[j][i]),
    {
        let m = self.zip_add(&rhs);
        proof {
            Matrix::<T, R, C>::lemma_from_view(m);
        }
        m
    }
}

impl<'a, T: Copy + Add<Output = T>, const R: usize, const C: usize> AddSpecImpl<Matrix<T, R, C>> for &'a Matrix<T, R, C> {
    open spec fn obeys_add_spec() -> bool {
        T::obeys_add_spec()
    }

    open spec fn add_req(self, rhs: Matrix<T, R, C>) -> bool {
        mat_add_req(self@, rhs@)
    }

    open spec fn add_spec(self, rhs: Matrix<T, R, C>) -> Matrix<T, R, C> {
        Matrix::<T, R, C>::from_view(mat_add(self@, rhs@))
    }
}

impl<'a, T: Copy + Add<Output = T>, const R: usize, const C: usize> Add<&'a Matrix<T, R, C>> for Matrix<T, R, C> {
    type Output = Matrix<T, R, C>;

    /// Element by element.
    fn add(self, rhs: &'a Matrix<T, R, C>) -> (m: Matrix<T, R, C>)
        ensures
            T::obeys_add_spec() ==> m@ == mat_add(self@, rhs@),
            T::obeys_add_spec() ==> forall|j: int, i: int|
                0 <= j < R && 0 <= i < C ==> #[trigger] m@[j][i] == self@[j][i].add_spec(rhs@[j][i]),
    {
        let m = self.zip_add(rhs);
        proof {
            Matrix::<T, R, C>::lemma_from_view(m);
        }
        m
    }
}

impl<'a, T: Copy + Add<Output = T>, const R: usize, const C: usize> AddSpecImpl<&'a Matrix<T, R, C>> for Matrix<T, R, C> {
    open spec fn obeys_add_spec() -> bool {
        T::obeys_add_spec()
    }

    open spec fn add_req(self, rhs: &'a Matrix<T, R, C>) -> bool {
        mat_add_req(self@, rhs@)
    }

    open spec fn add_spec(self, rhs: &'a Matrix<T, R, C>) -> Matrix<T, R, C> {
        Matrix::<T, R, C>::from_view(mat_add(self@, rhs@))
    }
}

impl<'a, 'b, T: Copy + Add<Output = T>, const R: usize, const C: usize> Add<&'a Matrix<T, R, C>> for &'b Matrix<T, R, C> {
    type Output = Matrix<T, R, C>;

    /// Element by element.
    fn add(self, rhs: &'a Matrix<T, R, C>) -> (m: Matrix<T, R, C>)
        ensures
            T::obeys_add_spec() ==> m@ == mat_add(self@, rhs@),
            T::obeys_add_spec() ==> forall|j: int, i: int|
                0 <= j < R && 0 <= i < C ==> #[trigger] m@[j][i] == self@[j][i].add_spec(rhs@[j][i]),
    {
        let m = self.zip_add(rhs);
        proof {
            Matrix::<T, R, C>::lemma_from_view(m);
        }
        m
    }
}

impl<'a, 'b, T: Copy + Add<Output = T>, const R: usize, const C: usize> AddSpecImpl<&'a Matrix<T, R, C>> for &'b Matrix<T, R, C> {
    open spec fn obeys_add_spec() -> bool {
        T::obeys_add_spec()
    }

    open spec fn add_req(self, rhs: &'a Matrix<T, R, C>) -> bool {
        mat_add_req(self@, rhs@)
    }

    open spec fn add_spec(self, rhs: &'a Matrix<T, R, C>) -> Matrix<T, R, C> {
        Matrix::<T, R, C>::from_view(mat_add(self@, rhs@))
    }
}

impl<T: Copy + Sub<Output = T>, const R: usize, const C: usize> Sub<Matrix<T, R, C>> for Matrix<T, R, C> {
    type Output = Matrix<T, R, C>;

    /// Element by element.
    fn sub(self, rhs: Matrix<T, R, C>) -> (m: Matrix<T, R, C>)
        ensures
            T::obeys_sub_spec() ==> m@ == mat_sub(self@, rhs@),
            T::obeys_sub_spec() ==> forall|j: int, i: int|
                0 <= j < R && 0 <= i < C ==> #[trigger] m@[j][i] == self@[j][i].sub_spec(rhs@[j][i]),
    {
        let m = self.zip_sub(&rhs);
        proof {
            Matrix::<T, R, C>::lemma_from_view(m);
        }
        m
    }
}

impl<T: Copy + Sub<Output = T>, const R: usize, const C: usize> SubSpecImpl<Matrix<T, R, C>> for Matrix<T, R, C> {
    open spec fn obeys_sub_spec() -> bool {
        T::obeys_sub_spec()
    }

    open spec fn sub_req(self, rhs: Matrix<T, R, C>) -> bool {
        mat_sub_req(self@, rhs@)
    }

    open spec fn sub_spec(self, rhs: Matrix<T, R, C>) -> Matrix<T, R, C> {
        Matrix::<T, R, C>::from_view(mat_sub(self@, rhs@))
    }
}

impl<'a, T: Copy + Sub<Output = T>, const R: usize, const C: usize> Sub<Matrix<T, R, C>> for &'a Matrix<T, R, C> {
    type Output = Matrix<T, R, C>;

    /// Element by element.
    fn sub(self, rhs: Matrix<T, R, C>) -> (m: Matrix<T, R, C>)
        ensures
            T::obeys_sub_spec() ==> m@ == mat_sub(self@, rhs@),
            T::obeys_sub_spec() ==> forall|j: int, i: int|
                0 <= j < R && 0 <= i < C ==> #[trigger] m@[j][i] == self@[j][i].sub_spec(rhs@[j][i]),
    {
        let m = self.zip_sub(&rhs);
        proof {
            Matrix::<T, R, C>::lemma_from_view(m);
        }
        m
    }
}

impl<'a, T: Copy + Sub<Output = T>, const R: usize, const C: usize> SubSpecImpl<Matrix<T, R, C>> for &'a Matrix<T, R, C> {
    open spec fn obeys_sub_spec() -> bool {
        T::obeys_sub_spec()
    }

    open spec fn sub_req(self, rhs: Matrix<T, R, C>) -> bool {
        mat_sub_req(self@, rhs@)
    }

    open spec fn sub_spec(self, rhs: Matrix<T, R, C>) -> Matrix<T, R, C> {
        Matrix::<T, R, C>::from_view(mat_sub(self@, rhs@))
    }
}

impl<'a, T: Copy + Sub<Output = T>, const R: usize, const C: usize> Sub<&'a Matrix<T, R, C>> for Matrix<T, R, C> {
    type Output = Matrix<T, R, C>;

    /// Element by element.
    fn sub(self, rhs: &'a Matrix<T, R, C>) -> (m: Matrix<T, R, C>)
        ensures
            T::obeys_sub_spec() ==> m@ == mat_sub(self@, rhs@),
            T::obeys_sub_spec() ==> forall|j: int, i: int|
                0 <= j < R && 0 <= i < C ==> #[trigger] m@[j][i] == self@[j][i].sub_spec(rhs@[j][i]),
    {
        let m = self.zip_sub(rhs);
        proof {
            Matrix::<T, R, C>::lemma_from_view(m);
        }
        m
    }
}

impl<'a, T: Copy + Sub<Output = T>, const R: usize, const C: usize> SubSpecImpl<&'a Matrix<T, R, C>> for Matrix<T, R, C> {
    open spec fn obeys_sub_spec() -> bool {
        T::obeys_sub_spec()
    }

    open spec fn sub_req(self, rhs: &'a Matrix<T, R, C>) -> bool {
        mat_sub_req(self@, rhs@)
    }

    open spec fn sub_spec(self, rhs: &'a Matrix<T, R, C>) -> Matrix<T, R, C> {
        Matrix::<T, R, C>::from_view(mat_sub(self@, rhs@))
    }
}

impl<'a, 'b, T: Copy + Sub<Output = T>, const R: usize, const C: usize> Sub<&'a Matrix<T, R, C>> for &'b Matrix<T, R, C> {
    type Output = Matrix<T, R, C>;

    /// Element by element.
    fn sub(self, rhs: &'a Matrix<T, R, C>) -> (m: Matrix<T, R, C>)
        ensures
            T::obeys_sub_spec() ==> m@ == mat_sub(self@, rhs@),
            T::obeys_sub_spec() ==> forall|j: int, i: int|
                0 <= j < R && 0 <= i < C ==> #[trigger] m@[j][i] == self@[j][i].sub_spec(rhs@[j][i]),
    {
        let m = self.zip_sub(rhs);
        proof {
            Matrix::<T, R, C>::lemma_from_view(m);
        }
        m
    }
}

impl<'a, 'b, T: Copy + Sub<Output = T>, const R: usize, const C: usize> SubSpecImpl<&'a Matrix<T, R, C>> for &'b Matrix<T, R, C> {
    open spec fn obeys_sub_spec() -> bool {
        T::obeys_sub_spec()
    }

    open spec fn sub_req(self, rhs: &'a Matrix<T, R, C>) -> bool {
        mat_sub_req(self@, rhs@)
    }

    open spec fn sub_spec(self, rhs: &'a Matrix<T, R, C>) -> Matrix<T, R, C> {
        Matrix::<T, R, C>::from_view(mat_sub(self@, rhs@))
    }
}

impl<T: Copy + Mul<Output = T>, const R: usize, const C: usize> Mul<T> for Matrix<T, R, C> {
    type Output = Matrix<T, R, C>;

    /// Every element multiplied on the right by `rhs`.
    fn mul(self, rhs: T) -> (m: Matrix<T, R, C>)
        ensures
            T::obeys_mul_spec() ==> m@ == mat_scale(self@, rhs),
            T::obeys_mul_spec() ==> forall|j: int, i: int|
                0 <= j < R && 0 <= i < C ==> #[trigger] m@[j][i] == self@[j][i].mul_spec(rhs),
    {
        let mut out = self.rows;
        for j in 0..R
            invariant
                mat_scale_req(self@, rhs),
                T::obeys_mul_spec() ==> forall|r: int, c: int|
                    0 <= r < j && 0 <= c < C ==> (#[trigger] out@[r]@[c]) == self@[r][c].mul_spec(
                        rhs,
                    ),
        {
            let mut row = self.rows[j];
            for i in 0..C
                invariant
                    j < R,
                    mat_scale_req(self@, rhs),
                    T::obeys_mul_spec() ==> forall|c: int|
                        0 <= c < i ==> (#[trigger] row@[c]) == self@[j as int][c].mul_spec(rhs),
            {
                assert(self@[j as int][i as int].mul_req(rhs));
                row[i] = self.rows[j][i] * rhs;
            }
            out[j] = row;
        }
        let m = Matrix { rows: out };
        proof {
            if T::obeys_mul_spec() {
                assert forall|r: int| 0 <= r < R implies m@[r] =~= mat_scale(self@, rhs)[r] by {}
                assert(m@ =~= mat_scale(self@, rhs));
            }
            Matrix::<T, R, C>::lemma_from_view(m);
        }
        m
    }
}

impl<T: Copy + Mul<Output = T>, const R: usize, const C: usize> MulSpecImpl<T> for Matrix<T, R, C> {
    open spec fn obeys_mul_spec() -> bool {
        T::obeys_mul_spec()
    }

    open spec fn mul_req(self, rhs: T) -> bool {
        mat_scale_req(self@, rhs)
    }

    open spec fn mul_spec(self, rhs: T) -> Matrix<T, R, C> {
        Matrix::<T, R, C>::from_view(mat_scale(self@, rhs))
    }
}

/// `dot_req` for `k` products holds for every shorter prefix.
proof fn lemma_dot_req_prefix<T: Add<Output = T> + Mul<Output = T>>(
    a: Seq<T>,
    b: Seq<T>,
    n: nat,
    k: nat,
)
    requires
        dot_req(a, b, n),
        1 <= k <= n,
    ensures
        dot_req(a, b, k),
    decreases n,
{
    if k < n {
        lemma_dot_req_prefix(a, b, (n - 1) as nat, k);
    }
}

/// Entry `c` of the product of row `a` with the matrix whose rows are `b`.
fn dot_entry<T: Copy + Add<Output = T> + Mul<Output = T>, const N: usize, const RC: usize>(
    a: &[T; N],
    b: &[[T; RC]; N],
    c: usize,
) -> (s: T)
    requires
        N > 0,
        c < RC,
        T::obeys_add_spec(),
        T::obeys_mul_spec(),
        dot_req(a@, column(rows_of(*b), c as int), N as nat),
    ensures
        s == dot(a@, column(rows_of(*b), c as int), N as nat),
{
    let ghost col = column(rows_of(*b), c as int);
    proof {
        lemma_dot_req_prefix(a@, col, N as nat, 1);
    }
    assert(col[0] == b@[0]@[c as int]);
    let mut acc = a[0] * b[0][c];
    let mut k: usize = 1;
    while k < N
        invariant
            1 <= k <= N,
            c < RC,
            T::obeys_add_spec(),
            T::obeys_mul_spec(),
            col == column(rows_of(*b), c as int),
            dot_req(a@, col, N as nat),
            acc == dot(a@, col, k as nat),
        decreases N - k,
    {
        proof {
            lemma_dot_req_prefix(a@, col, N as nat, (k + 1) as nat);
        }
        assert(col[k as int] == b@[k as int]@[c as int]);
        let p = a[k] * b[k][c];
        acc = acc + p;
        k = k + 1;
    }
    acc
}

impl<
    T: Copy + Add<Output = T> + Mul<Output = T>,
    const LR: usize,
    const N: usize,
    const RC: usize,
> Mul<Matrix<T, N, RC>> for Matrix<T, LR, N> {
    type Output = Matrix<T, LR, RC>;

    /// The matrix product: entry `(c, r)` is row `r` of `self` times column
    /// `c` of `rhs`, the products summed from the left.
    fn mul(self, rhs: Matrix<T, N, RC>) -> (m: Matrix<T, LR, RC>)
        ensures
            m@ == mat_mul(self@, rhs@, N as nat, RC as nat),
            forall|r: int, c: int|
                0 <= r < LR && 0 <= c < RC ==> #[trigger] m@[r][c] == dot(
                    self@[r],
                    column(rhs@, c),
                    N as nat,
                ),
    {
        let mut out = [[self.rows[0][0]; RC]; LR];
        for r in 0..LR
            invariant
                LR > 0,
                N > 0,
                T::obeys_add_spec(),
                T::obeys_mul_spec(),
                mat_mul_req(self@, rhs@, N as nat, RC as nat),
                forall|rr: int, c: int|
                    0 <= rr < r && 0 <= c < RC ==> (#[trigger] out@[rr]@[c]) == dot(
                        self@[rr],
                        column(rhs@, c),
                        N as nat,
                    ),
        {
            let mut row = [self.rows[0][0]; RC];
            for c in 0..RC
                invariant
                    r < LR,
                    N > 0,
                    T::obeys_add_spec(),
                    T::obeys_mul_spec(),
                    mat_mul_req(self@, rhs@, N as nat, RC as nat),
                    forall|cc: int|
                        0 <= cc < c ==> (#[trigger] row@[cc]) == dot(
                            self@[r as int],
                            column(rhs@, cc),
                            N as nat,
                        ),
            {
                assert(dot_req(self@[r as int], column(rhs@, c as int), N as nat));
                row[c] = dot_entry(&self.rows[r], &rhs.rows, c);
            }
            out[r] = row;
        }
        let m = Matrix { rows: out };
        proof {
            assert forall|rr: int| 0 <= rr < LR implies m@[rr] =~= mat_mul(
                self@,
                rhs@,
                N as nat,
                RC as nat,
            )[rr] by {}
            assert(m@ =~= mat_mul(self@, rhs@, N as nat, RC as nat));
            Matrix::<T, LR, RC>::lemma_from_view(m);
        }
        m
    }
}

impl<
    T: Copy + Add<Output = T> + Mul<Output = T>,
    const LR: usize,
    const N: usize,
    const RC: usize,
> MulSpecImpl<Matrix<T, N, RC>> for Matrix<T, LR, N> {
    open spec fn obeys_mul_spec() -> bool {
        true
    }

    /// Both dimensions that the product is built from are nonzero, the
    /// element type's `+` and `*` follow vstd's specification, and every
    /// product and partial sum may be computed.
    open spec fn mul_req(self, rhs: Matrix<T, N, RC>) -> bool {
        &&& LR > 0
        &&& N > 0
        &&& T::obeys_add_spec()
        &&& T::obeys_mul_spec()
        &&& mat_mul_req(self@, rhs@, N as nat, RC as nat)
    }

    open spec fn mul_spec(self, rhs: Matrix<T, N, RC>) -> Matrix<T, LR, RC> {
        Matrix::<T, LR, RC>::from_view(mat_mul(self@, rhs@, N as nat, RC as nat))
    }
}

} // verus!
