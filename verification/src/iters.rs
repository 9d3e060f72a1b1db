//! Iterators over the rows and the columns of a `Matrix`, by reference and
//! by copy.
use vstd::prelude::*;
use crate::matrix::{rows_of, Matrix};
use crate::arrays::array_from_fn;
use crate::seqs::{after_next, transpose};

verus! {

broadcast use vstd::array::group_array_axioms;

/// Element `i` of row `j` of a nested array.
pub open spec fn element_at<T, const R: usize, const C: usize>(a: [[T; C]; R], j: usize, i: usize) -> T {
    a@[j as int]@[i as int]
}

/// The values behind a sequence of references.
pub open spec fn derefs<T>(s: Seq<&T>) -> Seq<T> {
    s.map_values(|x: &T| *x)
}

/// Iterator over the rows of a matrix, front to back, each as an array of
/// references to the elements.
pub struct RowsIter<'a, T, const R: usize, const C: usize> {
    rows: &'a [[T; C]; R],
    pos: usize,
}

impl<'a, T, const R: usize, const C: usize> View for RowsIter<'a, T, R, C> {
    type V = Seq<Seq<T>>;

    /// The rows not yet handed out.
    closed spec fn view(&self) -> Seq<Seq<T>> {
        rows_of(*self.rows).subrange(self.pos as int, R as int)
    }
}

impl<'a, T, const R: usize, const C: usize> RowsIter<'a, T, R, C> {
    #[verifier::type_invariant]
    spec fn well_formed(self) -> bool {
        self.pos <= R
    }

    /// The number of rows left.
    pub fn len(&self) -> (n: usize)
        ensures
            n == self@.len(),
    {
        proof {
            use_type_invariant(self);
        }
        R - self.pos
    }

    /// Bounds on the number of rows left; both are exact.
    pub fn size_hint(&self) -> (hint: (usize, Option<usize>))
        ensures
            hint.0 == self@.len(),
            hint.1 == Some(hint.0),
    {
        let s = self.len();
        (s, Some(s))
    }

    /// Consumes the iterator, giving the number of rows left.
    pub fn count(self) -> (n: usize)
        ensures
            n == self@.len(),
    {
        self.len()
    }

    /// Hands out the next row, or `None` once all have been handed out.
    pub fn next(&mut self) -> (r: Option<[&'a T; C]>)
        ensures
            old(self)@.len() == 0 ==> r is None,
            old(self)@.len() > 0 ==> (r matches Some(it) && derefs(it@) == old(self)@[0]),
            final(self)@ == after_next(old(self)@),
    {
        proof {
            use_type_invariant(&*self);
        }
        if self.pos >= R {
            return None;
        }
        let s = self.pos;
        self.pos = self.pos + 1;
        let rows: &'a [[T; C]; R] = self.rows;
        let out: [&'a T; C] = array_from_fn(
            (|k: usize| -> (e: &'a T)
                requires
                    k < C,
                ensures
                    *e == element_at(*rows, s, k),
                {
                    let e = &rows[s][k];
                    e
                }),
        );
        proof {
            assert(derefs(out@) =~= old(self)@[0]);
            assert(self@ =~= old(self)@.drop_first());
        }
        Some(out)
    }

    /// Skips `n` rows and hands out the one after them; there must be
    /// more than `n` left.
    pub fn nth(&mut self, n: usize) -> (r: Option<[&'a T; C]>)
        requires
            n < old(self)@.len(),
        ensures
            r matches Some(it) && derefs(it@) == old(self)@[n as int],
            final(self)@ == old(self)@.subrange(n + 1, old(self)@.len() as int),
    {
        proof {
            use_type_invariant(&*self);
        }
        self.pos = self.pos + n;
        proof {
            assert(self@ =~= old(self)@.subrange(n as int, old(self)@.len() as int));
        }
        let r = self.next();
        proof {
            assert(final(self)@ =~= old(self)@.subrange(n + 1, old(self)@.len() as int));
        }
        r
    }
}

/// Iterator over the rows of a matrix, front to back, each as an array of
/// clones of the elements.
pub struct RowsClonedIter<'a, T, const R: usize, const C: usize> {
    rows: &'a [[T; C]; R],
    pos: usize,
}

impl<'a, T, const R: usize, const C: usize> View for RowsClonedIter<'a, T, R, C> {
    type V = Seq<Seq<T>>;

    /// The rows not yet handed out.
    closed spec fn view(&self) -> Seq<Seq<T>> {
        rows_of(*self.rows).subrange(self.pos as int, R as int)
    }
}

impl<'a, T, const R: usize, const C: usize> RowsClonedIter<'a, T, R, C> {
    #[verifier::type_invariant]
    spec fn well_formed(self) -> bool {
        self.pos <= R
    }

    /// The number of rows left.
    pub fn len(&self) -> (n: usize)
        ensures
            n == self@.len(),
    {
        proof {
            use_type_invariant(self);
        }
        R - self.pos
    }

    /// Bounds on the number of rows left; both are exact.
    pub fn size_hint(&self) -> (hint: (usize, Option<usize>))
        ensures
            hint.0 == self@.len(),
            hint.1 == Some(hint.0),
    {
        let s = self.len();
        (s, Some(s))
    }

    /// Consumes the iterator, giving the number of rows left.
    pub fn count(self) -> (n: usize)
        ensures
            n == self@.len(),
    {
        self.len()
    }
}

impl<'a, T: Clone, const R: usize, const C: usize> RowsClonedIter<'a, T, R, C> {
    /// Hands out the next row, or `None` once all have been handed out.
    pub fn next(&mut self) -> (r: Option<[T; C]>)
        ensures
            old(self)@.len() == 0 ==> r is None,
            old(self)@.len() > 0 ==> (r matches Some(it) && forall|q: int|
                0 <= q < old(self)@[0].len() ==> cloned::<T>(old(self)@[0][q], #[trigger] it@[q])),
            final(self)@ == after_next(old(self)@),
    {
        proof {
            use_type_invariant(&*self);
        }
        if self.pos >= R {
            return None;
        }
        let s = self.pos;
        self.pos = self.pos + 1;
        let out = self.rows[s].clone();
        proof {
            assert(self@ =~= old(self)@.drop_first());
        }
        Some(out)
    }

    /// Skips `n` rows and hands out the one after them; there must be
    /// more than `n` left.
    pub fn nth(&mut self, n: usize) -> (r: Option<[T; C]>)
        requires
            n < old(self)@.len(),
        ensures
            r matches Some(it) && forall|q: int|
                0 <= q < old(self)@[n as int].len() ==> cloned::<T>(
                    old(self)@[n as int][q],
                    #[trigger] it@[q],
                ),
            final(self)@ == old(self)@.subrange(n + 1, old(self)@.len() as int),
    {
        proof {
            use_type_invariant(&*self);
        }
        self.pos = self.pos + n;
        proof {
            assert(self@ =~= old(self)@.subrange(n as int, old(self)@.len() as int));
        }
        let r = self.next();
        proof {
            assert(final(self)@ =~= old(self)@.subrange(n + 1, old(self)@.len() as int));
        }
        r
    }
}

/// Iterator over the columns of a matrix, front to back, each as an array of
/// references to the elements.
pub struct ColsIter<'a, T, const R: usize, const C: usize> {
    rows: &'a [[T; C]; R],
    pos: usize,
}

impl<'a, T, const R: usize, const C: usize> View for ColsIter<'a, T, R, C> {
    type V = Seq<Seq<T>>;

    /// The columns not yet handed out.
    closed spec fn view(&self) -> Seq<Seq<T>> {
        transpose(rows_of(*self.rows), C as nat).subrange(self.pos as int, C as int)
    }
}

impl<'a, T, const R: usize, const C: usize> ColsIter<'a, T, R, C> {
    #[verifier::type_invariant]
    spec fn well_formed(self) -> bool {
        self.pos <= C
    }

    /// The number of columns left.
    pub fn len(&self) -> (n: usize)
        ensures
            n == self@.len(),
    {
        proof {
            use_type_invariant(self);
        }
        C - self.pos
    }

    /// Bounds on the number of columns left; both are exact.
    pub fn size_hint(&self) -> (hint: (usize, Option<usize>))
        ensures
            hint.0 == self@.len(),
            hint.1 == Some(hint.0),
    {
        let s = self.len();
        (s, Some(s))
    }

    /// Consumes the iterator, giving the number of columns left.
    pub fn count(self) -> (n: usize)
        ensures
            n == self@.len(),
    {
        self.len()
    }

    /// Hands out the next column, or `None` once all have been handed out.
    pub fn next(&mut self) -> (r: Option<[&'a T; R]>)
        ensures
            old(self)@.len() == 0 ==> r is None,
            old(self)@.len() > 0 ==> (r matches Some(it) && derefs(it@) == old(self)@[0]),
            final(self)@ == after_next(old(self)@),
    {
        proof {
            use_type_invariant(&*self);
        }
        if self.pos >= C {
            return None;
        }
        let s = self.pos;
        self.pos = self.pos + 1;
        let rows: &'a [[T; C]; R] = self.rows;
        let out: [&'a T; R] = array_from_fn(
            (|k: usize| -> (e: &'a T)
                requires
                    k < R,
                ensures
                    *e == element_at(*rows, k, s),
                {
                    let e = &rows[k][s];
                    e
                }),
        );
        proof {
            assert(derefs(out@) =~= old(self)@[0]);
            assert(self@ =~= old(self)@.drop_first());
        }
        Some(out)
    }

    /// Skips `n` columns and hands out the one after them; there must be
    /// more than `n` left.
    pub fn nth(&mut self, n: usize) -> (r: Option<[&'a T; R]>)
        requires
            n < old(self)@.len(),
        ensures
            r matches Some(it) && derefs(it@) == old(self)@[n as int],
            final(self)@ == old(self)@.subrange(n + 1, old(self)@.len() as int),
    {
        proof {
            use_type_invariant(&*self);
        }
        self.pos = self.pos + n;
        proof {
            assert(self@ =~= old(self)@.subrange(n as int, old(self)@.len() as int));
        }
        let r = self.next();
        proof {
            assert(final(self)@ =~= old(self)@.subrange(n + 1, old(self)@.len() as int));
        }
        r
    }
}

/// Iterator over the columns of a matrix, front to back, each as an array of
/// clones of the elements.
pub struct ColsClonedIter<'a, T, const R: usize, const C: usize> {
    rows: &'a [[T; C]; R],
    pos: usize,
}

impl<'a, T, const R: usize, const C: usize> View for ColsClonedIter<'a, T, R, C> {
    type V = Seq<Seq<T>>;

    /// The columns not yet handed out.
    closed spec fn view(&self) -> Seq<Seq<T>> {
        transpose(rows_of(*self.rows), C as nat).subrange(self.pos as int, C as int)
    }
}

impl<'a, T, const R: usize, const C: usize> ColsClonedIter<'a, T, R, C> {
    #[verifier::type_invariant]
    spec fn well_formed(self) -> bool {
        self.pos <= C
    }

    /// The number of columns left.
    pub fn len(&self) -> (n: usize)
        ensures
            n == self@.len(),
    {
        proof {
            use_type_invariant(self);
        }
        C - self.pos
    }

    /// Bounds on the number of columns left; both are exact.
    pub fn size_hint(&self) -> (hint: (usize, Option<usize>))
        ensures
            hint.0 == self@.len(),
            hint.1 == Some(hint.0),
    {
        let s = self.len();
        (s, Some(s))
    }

    /// Consumes the iterator, giving the number of columns left.
    pub fn count(self) -> (n: usize)
        ensures
            n == self@.len(),
    {
        self.len()
    }
}

impl<'a, T: Clone, const R: usize, const C: usize> ColsClonedIter<'a, T, R, C> {
    /// Hands out the next column, or `None` once all have been handed out.
    pub fn next(&mut self) -> (r: Option<[T; R]>)
        ensures
            old(self)@.len() == 0 ==> r is None,
            old(self)@.len() > 0 ==> (r matches Some(it) && forall|q: int|
                0 <= q < old(self)@[0].len() ==> cloned::<T>(old(self)@[0][q], #[trigger] it@[q])),
            final(self)@ == after_next(old(self)@),
    {
        proof {
            use_type_invariant(&*self);
        }
        if self.pos >= C {
            return None;
        }
        let s = self.pos;
        self.pos = self.pos + 1;
        let rows: &'a [[T; C]; R] = self.rows;
        let out: [T; R] = array_from_fn(
            (|k: usize| -> (e: T)
                requires
                    k < R,
                ensures
                    cloned::<T>(element_at(*rows, k, s), e),
                {
                    let e = rows[k][s].clone();
                    e
                }),
        );
        proof {
            assert(self@ =~= old(self)@.drop_first());
        }
        Some(out)
    }

    /// Skips `n` columns and hands out the one after them; there must be
    /// more than `n` left.
    pub fn nth(&mut self, n: usize) -> (r: Option<[T; R]>)
        requires
            n < old(self)@.len(),
        ensures
            r matches Some(it) && forall|q: int|
                0 <= q < old(self)@[n as int].len() ==> cloned::<T>(
                    old(self)@[n as int][q],
                    #[trigger] it@[q],
                ),
            final(self)@ == old(self)@.subrange(n + 1, old(self)@.len() as int),
    {
        proof {
            use_type_invariant(&*self);
        }
        self.pos = self.pos + n;
        proof {
            assert(self@ =~= old(self)@.subrange(n as int, old(self)@.len() as int));
        }
        let r = self.next();
        proof {
            assert(final(self)@ =~= old(self)@.subrange(n + 1, old(self)@.len() as int));
        }
        r
    }
}

impl<T, const R: usize, const C: usize> Matrix<T, R, C> {
    /// Iterator over the rows, each as an array of references.
    pub fn rows_ref<'a>(&'a self) -> (it: RowsIter<'a, T, R, C>)
        ensures
            it@ == self@,
    {
        let it = RowsIter { rows: self.rows_array(), pos: 0 };
        proof {
            assert(it@ =~= self@);
        }
        it
    }

    /// Iterator over the columns, each as an array of references.
    pub fn cols_ref<'a>(&'a self) -> (it: ColsIter<'a, T, R, C>)
        ensures
            it@ == transpose(self@, C as nat),
    {
        let it = ColsIter { rows: self.rows_array(), pos: 0 };
        proof {
            assert(it@ =~= transpose(self@, C as nat));
        }
        it
    }
}

impl<T: Clone, const R: usize, const C: usize> Matrix<T, R, C> {
    /// Iterator over the rows, each as an array of clones.
    pub fn rows<'a>(&'a self) -> (it: RowsClonedIter<'a, T, R, C>)
        ensures
            it@ == self@,
    {
        let it = RowsClonedIter { rows: self.rows_array(), pos: 0 };
        proof {
            assert(it@ =~= self@);
        }
        it
    }

    /// Iterator over the columns, each as an array of clones.
    pub fn cols<'a>(&'a self) -> (it: ColsClonedIter<'a, T, R, C>)
        ensures
            it@ == transpose(self@, C as nat),
    {
        let it = ColsClonedIter { rows: self.rows_array(), pos: 0 };
        proof {
            assert(it@ =~= transpose(self@, C as nat));
        }
        it
    }
}

} // verus!
