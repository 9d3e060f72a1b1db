//! `Vector`: a fixed-size vector whose elements are stored inline, and
//! `VectorChunks`, which hands out a vector's consecutive chunks.
use vstd::prelude::*;
use std::ops::{Add, Deref, DerefMut, Sub};
use vstd::std_specs::cmp::{PartialEqSpec, PartialEqSpecImpl};
use vstd::std_specs::ops::{AddSpec, AddSpecImpl, SubSpec, SubSpecImpl};
use vstd::arithmetic::div_mod::{
    lemma_div_multiples_vanish, lemma_fundamental_div_mod, lemma_mod_multiples_basic,
};
use vstd::arithmetic::mul::{
    lemma_mul_inequality, lemma_mul_is_commutative, lemma_mul_is_distributive_add_other_way,
    lemma_mul_is_distributive_sub_other_way, lemma_mul_strict_inequality_converse,
};
use crate::arrays::{array_from_fn, array_unwrap, array_wrap, empty_array};
use crate::seqs::{after_next, unflatten, lemma_array_with_view, overwrite, seq_add, seq_add_req, seq_sub, seq_sub_req};

verus! {

broadcast use vstd::array::group_array_axioms;

/// A fixed-size vector whose `N` elements are stored inline.
#[derive(Debug)]
pub struct Vector<T, const N: usize>([T; N]);

impl<T: Clone, const N: usize> Clone for Vector<T, N> {
    /// Each element cloned in place.
    fn clone(&self) -> (v: Self)
        ensures
            forall|i: int| 0 <= i < N ==> cloned::<T>(self@[i], #[trigger] v@[i]),
    {
        Vector(self.0.clone())
    }
}

impl<T: Copy, const N: usize> Copy for Vector<T, N> {

}

impl<T, const N: usize> View for Vector<T, N> {
    type V = Seq<T>;

    /// The elements, in order.
    closed spec fn view(&self) -> Seq<T> {
        self.0@
    }
}

impl<T, const N: usize> Vector<T, N> {
    /// The vector whose elements are `s`, for an `s` of length `N`.
    pub closed spec fn from_view(s: Seq<T>) -> Self {
        choose|v: Self| v@ == s
    }

    /// A vector is determined by its elements.
    pub proof fn lemma_from_view(v: Self)
        ensures
            Self::from_view(v@) == v,
    {
        let c = Self::from_view(v@);
        assert(c.0 =~= v.0);
    }

    /// Every sequence of `N` elements is the view of a vector.
    pub proof fn lemma_view_from_view(s: Seq<T>)
        requires
            s.len() == N,
        ensures
            Self::from_view(s)@ == s,
    {
        let base: [T; N] = vstd::pervasive::arbitrary();
        lemma_array_with_view(base, s);
        let w = Vector(overwrite(base, s, N as nat));
        assert(w@ == s);
    }

    /// Every vector holds exactly `N` elements.
    pub proof fn lemma_len(v: Self)
        ensures
            v@.len() == N,
    {
    }

    /// Wraps an array.
    pub fn new(array: [T; N]) -> (v: Self)
        ensures
            v@ == array@,
    {
        Vector(array)
    }

    /// Gives the array back.
    pub fn into_inner(self) -> (array: [T; N])
        ensures
            array@ == self@,
    {
        self.0
    }

    /// The elements as a slice.
    pub fn as_slice(&self) -> (s: &[T])
        ensures
            s@ == self@,
    {
        self.0.as_slice()
    }

    /// The elements as a mutable slice; what is written through it is what
    /// the vector holds afterwards.
    pub fn as_slice_mut(&mut self) -> (s: &mut [T])
        ensures
            s@ == old(self)@,
            final(self)@ == final(s)@,
    {
        &mut self.0
    }

    /// Splits the vector into `N / I` consecutive chunks of `I` elements.
    pub fn into_chunks<const I: usize>(self) -> (chunks: VectorChunks<T, N, I>)
        requires
            I > 0,
            N % I == 0,
        ensures
            chunks@ == unflatten(self@, (N / I) as nat, I as nat),
    {
        VectorChunks::new(self.0)
    }
}

impl<T: Default, const N: usize> Default for Vector<T, N> {
    /// Each element is what a call of `T::default()` gave.
    fn default() -> (v: Self)
        ensures
            forall|i: int| 0 <= i < N ==> call_ensures(T::default, (), #[trigger] v@[i]),
    {
        Vector(default_array())
    }
}

/// The array each of whose elements is what a call of `T::default()` gave.
pub(crate) fn default_array<T: Default, const N: usize>() -> (a: [T; N])
    ensures
        forall|i: int| 0 <= i < N ==> call_ensures(T::default, (), #[trigger] a@[i]),
{
    array_from_fn(
        (|_i: usize| -> (d: T)
            ensures
                call_ensures(T::default, (), d),
            {
                let d = T::default();
                d
            }),
    )
}


impl<T: Copy + Add<Output = T>, const N: usize> Vector<T, N> {
    fn zip_add(&self, other: &Self) -> (r: Self)
        requires
            seq_add_req(self@, other@),
        ensures
            T::obeys_add_spec() ==> r@ == seq_add(self@, other@),
            T::obeys_add_spec() ==> forall|i: int|
                0 <= i < N ==> #[trigger] r@[i] == self@[i].add_spec(other@[i]),
    {
        let mut out = self.0;
        for i in 0..N
            invariant
                seq_add_req(self@, other@),
                self@.len() == N,
                forall|k: int| i <= k < N ==> out@[k] == #[trigger] self@[k],
                T::obeys_add_spec() ==> forall|k: int|
                    0 <= k < i ==> out@[k] == (#[trigger] self@[k]).add_spec(other@[k]),
        {
            assert(self@[i as int].add_req(other@[i as int]));
            out[i] = self.0[i] + other.0[i];
        }
        proof {
            if T::obeys_add_spec() {
                assert(out@ =~= seq_add(self@, other@));
            }
        }
        Vector(out)
    }
}

impl<T: Copy + Sub<Output = T>, const N: usize> Vector<T, N> {
    fn zip_sub(&self, other: &Self) -> (r: Self)
        requires
            seq_sub_req(self@, other@),
        ensures
            T::obeys_sub_spec() ==> r@ == seq_sub(self@, other@),
            T::obeys_sub_spec() ==> forall|i: int|
                0 <= i < N ==> #[trigger] r@[i] == self@[i].sub_spec(other@[i]),
    {
        let mut out = self.0;
        for i in 0..N
            invariant
                seq_sub_req(self@, other@),
                self@.len() == N,
                forall|k: int| i <= k < N ==> out@[k] == #[trigger] self@[k],
                T::obeys_sub_spec() ==> forall|k: int|
                    0 <= k < i ==> out@[k] == (#[trigger] self@[k]).sub_spec(other@[k]),
        {
            assert(self@[i as int].sub_req(other@[i as int]));
            out[i] = self.0[i] - other.0[i];
        }
        proof {
            if T::obeys_sub_spec() {
                assert(out@ =~= seq_sub(self@, other@));
            }
        }
        Vector(out)
    }
}

impl<T: Copy + Add<Output = T>, const N: usize> Add<Vector<T, N>> for Vector<T, N> {
    type Output = Vector<T, N>;

    /// Element by element.
    fn add(self, rhs: Vector<T, N>) -> (r: Vector<T, N>)
        ensures
            T::obeys_add_spec() ==> r@ == seq_add(self@, rhs@),
            T::obeys_add_spec() ==> forall|i: int|
                0 <= i < N ==> #[trigger] r@[i] == self@[i].add_spec(rhs@[i]),
    {
        let r = self.zip_add(&rhs);
        proof {
            Vector::<T, N>::lemma_from_view(r);
        }
        r
    }
}

impl<T: Copy + Add<Output = T>, const N: usize> AddSpecImpl<Vector<T, N>> for Vector<T, N> {
    open spec fn obeys_add_spec() -> bool {
        T::obeys_add_spec()
    }

    open spec fn add_req(self, rhs: Vector<T, N>) -> bool {
        seq_add_req(self@, rhs@)
    }

    open spec fn add_spec(self, rhs: Vector<T, N>) -> Vector<T, N> {
        Vector::<T, N>::from_view(seq_add(self@, rhs@))
    }
}

impl<'a, T: Copy + Add<Output = T>, const N: usize> Add<&'a Vector<T, N>> for Vector<T, N> {
    type Output = Vector<T, N>;

    /// Element by element.
    fn add(self, rhs: &'a Vector<T, N>) -> (r: Vector<T, N>)
        ensures
            T::obeys_add_spec() ==> r@ == seq_add(self@, rhs@),
            T::obeys_add_spec() ==> forall|i: int|
                0 <= i < N ==> #[trigger] r@[i] == self@[i].add_spec(rhs@[i]),
    {
        let r = self.zip_add(rhs);
        proof {
            Vector::<T, N>::lemma_from_view(r);
        }
        r
    }
}

impl<'a, T: Copy + Add<Output = T>, const N: usize> AddSpecImpl<&'a Vector<T, N>> for Vector<T, N> {
    open spec fn obeys_add_spec() -> bool {
        T::obeys_add_spec()
    }

    open spec fn add_req(self, rhs: &'a Vector<T, N>) -> bool {
        seq_add_req(self@, rhs@)
    }

    open spec fn add_spec(self, rhs: &'a Vector<T, N>) -> Vector<T, N> {
        Vector::<T, N>::from_view(seq_add(self@, rhs@))
    }
}

impl<'a, T: Copy + Add<Output = T>, const N: usize> Add<Vector<T, N>> for &'a Vector<T, N> {
    type Output = Vector<T, N>;

    /// Element by element.
    fn add(self, rhs: Vector<T, N>) -> (r: Vector<T, N>)
        ensures
            T::obeys_add_spec() ==> r@ == seq_add(self@, rhs@),
            T::obeys_add_spec() ==> forall|i: int|
                0 <= i < N ==> #[trigger] r@[i] == self@[i].add_spec(rhs@[i]),
    {
        let r = self.zip_add(&rhs);
        proof {
            Vector::<T, N>::lemma_from_view(r);
        }
        r
    }
}

impl<'a, T: Copy + Add<Output = T>, const N: usize> AddSpecImpl<Vector<T, N>> for &'a Vector<T, N> {
    open spec fn obeys_add_spec() -> bool {
        T::obeys_add_spec()
    }

    open spec fn add_req(self, rhs: Vector<T, N>) -> bool {
        seq_add_req(self@, rhs@)
    }

    open spec fn add_spec(self, rhs: Vector<T, N>) -> Vector<T, N> {
        Vector::<T, N>::from_view(seq_add(self@, rhs@))
    }
}

impl<'a, 'b, T: Copy + Add<Output = T>, const N: usize> Add<&'a Vector<T, N>> for &'b Vector<T, N> {
    type Output = Vector<T, N>;

    /// Element by element.
    fn add(self, rhs: &'a Vector<T, N>) -> (r: Vector<T, N>)
        ensures
            T::obeys_add_spec() ==> r@ == seq_add(self@, rhs@),
            T::obeys_add_spec() ==> forall|i: int|
                0 <= i < N ==> #[trigger] r@[i] == self@[i].add_spec(rhs@[i]),
    {
        let r = self.zip_add(rhs);
        proof {
            Vector::<T, N>::lemma_from_view(r);
        }
        r
    }
}

impl<'a, 'b, T: Copy + Add<Output = T>, const N: usize> AddSpecImpl<&'a Vector<T, N>> for &'b Vector<T, N> {
    open spec fn obeys_add_spec() -> bool {
        T::obeys_add_spec()
    }

    open spec fn add_req(self, rhs: &'a Vector<T, N>) -> bool {
        seq_add_req(self@, rhs@)
    }

    open spec fn add_spec(self, rhs: &'a Vector<T, N>) -> Vector<T, N> {
        Vector::<T, N>::from_view(seq_add(self@, rhs@))
    }
}

impl<T: Copy + Sub<Output = T>, const N: usize> Sub<Vector<T, N>> for Vector<T, N> {
    type Output = Vector<T, N>;

    /// Element by element.
    fn sub(self, rhs: Vector<T, N>) -> (r: Vector<T, N>)
        ensures
            T::obeys_sub_spec() ==> r@ == seq_sub(self@, rhs@),
            T::obeys_sub_spec() ==> forall|i: int|
                0 <= i < N ==> #[trigger] r@[i] == self@[i].sub_spec(rhs@[i]),
    {
        let r = self.zip_sub(&rhs);
        proof {
            Vector::<T, N>::lemma_from_view(r);
        }
        r
    }
}

impl<T: Copy + Sub<Output = T>, const N: usize> SubSpecImpl<Vector<T, N>> for Vector<T, N> {
    open spec fn obeys_sub_spec() -> bool {
        T::obeys_sub_spec()
    }

    open spec fn sub_req(self, rhs: Vector<T, N>) -> bool {
        seq_sub_req(self@, rhs@)
    }

    open spec fn sub_spec(self, rhs: Vector<T, N>) -> Vector<T, N> {
        Vector::<T, N>::from_view(seq_sub(self@, rhs@))
    }
}

impl<'a, T: Copy + Sub<Output = T>, const N: usize> Sub<&'a Vector<T, N>> for Vector<T, N> {
    type Output = Vector<T, N>;

    /// Element by element.
    fn sub(self, rhs: &'a Vector<T, N>) -> (r: Vector<T, N>)
        ensures
            T::obeys_sub_spec() ==> r@ == seq_sub(self@, rhs@),
            T::obeys_sub_spec() ==> forall|i: int|
                0 <= i < N ==> #[trigger] r@[i] == self@[i].sub_spec(rhs@[i]),
    {
        let r = self.zip_sub(rhs);
        proof {
            Vector::<T, N>::lemma_from_view(r);
        }
        r
    }
}

impl<'a, T: Copy + Sub<Output = T>, const N: usize> SubSpecImpl<&'a Vector<T, N>> for Vector<T, N> {
    open spec fn obeys_sub_spec() -> bool {
        T::obeys_sub_spec()
    }

    open spec fn sub_req(self, rhs: &'a Vector<T, N>) -> bool {
        seq_sub_req(self@, rhs@)
    }

    open spec fn sub_spec(self, rhs: &'a Vector<T, N>) -> Vector<T, N> {
        Vector::<T, N>::from_view(seq_sub(self@, rhs@))
    }
}

impl<'a, T: Copy + Sub<Output = T>, const N: usize> Sub<Vector<T, N>> for &'a Vector<T, N> {
    type Output = Vector<T, N>;

    /// Element by element.
    fn sub(self, rhs: Vector<T, N>) -> (r: Vector<T, N>)
        ensures
            T::obeys_sub_spec() ==> r@ == seq_sub(self@, rhs@),
            T::obeys_sub_spec() ==> forall|i: int|
                0 <= i < N ==> #[trigger] r@[i] == self@[i].sub_spec(rhs@[i]),
    {
        let r = self.zip_sub(&rhs);
        proof {
            Vector::<T, N>::lemma_from_view(r);
        }
        r
    }
}

impl<'a, T: Copy + Sub<Output = T>, const N: usize> SubSpecImpl<Vector<T, N>> for &'a Vector<T, N> {
    open spec fn obeys_sub_spec() -> bool {
        T::obeys_sub_spec()
    }

    open spec fn sub_req(self, rhs: Vector<T, N>) -> bool {
        seq_sub_req(self@, rhs@)
    }

    open spec fn sub_spec(self, rhs: Vector<T, N>) -> Vector<T, N> {
        Vector::<T, N>::from_view(seq_sub(self@, rhs@))
    }
}

impl<'a, 'b, T: Copy + Sub<Output = T>, const N: usize> Sub<&'a Vector<T, N>> for &'b Vector<T, N> {
    type Output = Vector<T, N>;

    /// Element by element.
    fn sub(self, rhs: &'a Vector<T, N>) -> (r: Vector<T, N>)
        ensures
            T::obeys_sub_spec() ==> r@ == seq_sub(self@, rhs@),
            T::obeys_sub_spec() ==> forall|i: int|
                0 <= i < N ==> #[trigger] r@[i] == self@[i].sub_spec(rhs@[i]),
    {
        let r = self.zip_sub(rhs);
        proof {
            Vector::<T, N>::lemma_from_view(r);
        }
        r
    }
}

impl<'a, 'b, T: Copy + Sub<Output = T>, const N: usize> SubSpecImpl<&'a Vector<T, N>> for &'b Vector<T, N> {
    open spec fn obeys_sub_spec() -> bool {
        T::obeys_sub_spec()
    }

    open spec fn sub_req(self, rhs: &'a Vector<T, N>) -> bool {
        seq_sub_req(self@, rhs@)
    }

    open spec fn sub_spec(self, rhs: &'a Vector<T, N>) -> Vector<T, N> {
        Vector::<T, N>::from_view(seq_sub(self@, rhs@))
    }
}

impl<T: PartialEq, const N: usize> PartialEq for Vector<T, N> {
    /// Element by element.
    fn eq(&self, other: &Self) -> (r: bool) {
        let mut i: usize = 0;
        while i < N
            invariant
                i <= N,
                T::obeys_eq_spec() ==> forall|k: int|
                    0 <= k < i ==> (#[trigger] self@[k]).eq_spec(&other@[k]),
            decreases N - i,
        {
            let same = self.0[i] == other.0[i];
            if !same {
                assert(T::obeys_eq_spec() ==> !self@[i as int].eq_spec(&other@[i as int]));
                return false;
            }
            i = i + 1;
        }
        true
    }
}

impl<T: PartialEq, const N: usize> PartialEqSpecImpl for Vector<T, N> {
    open spec fn obeys_eq_spec() -> bool {
        T::obeys_eq_spec()
    }

    open spec fn eq_spec(&self, other: &Self) -> bool {
        forall|k: int| 0 <= k < N ==> (#[trigger] self@[k]).eq_spec(&other@[k])
    }
}

impl<T: Eq, const N: usize> Eq for Vector<T, N> {

}

impl<T, const N: usize> Deref for Vector<T, N> {
    type Target = [T; N];

    fn deref(&self) -> (r: &[T; N])
        ensures
            r@ == self@,
    {
        &self.0
    }
}

impl<T, const N: usize> DerefMut for Vector<T, N> {
    fn deref_mut(&mut self) -> (r: &mut [T; N])
        ensures
            r@ == old(self)@,
            final(self)@ == final(r)@,
    {
        &mut self.0
    }
}

impl<T, const N: usize> AsRef<[T]> for Vector<T, N> {
    fn as_ref(&self) -> (s: &[T])
        ensures
            s@ == self@,
    {
        self.as_slice()
    }
}

impl<T, const N: usize> AsMut<[T]> for Vector<T, N> {
    fn as_mut(&mut self) -> (s: &mut [T])
        ensures
            s@ == old(self)@,
            final(self)@ == final(s)@,
    {
        self.as_slice_mut()
    }
}

/// The consecutive `I`-element chunks of an `N`-element vector, handed out
/// front to back.
pub struct VectorChunks<T, const N: usize, const I: usize> {
    data: [Option<T>; N],
    pos: usize,
}

impl<T, const N: usize, const I: usize> VectorChunks<T, N, I> {
    /// The elements not yet handed out.
    closed spec fn left(&self) -> Seq<T> {
        Seq::new((N - self.pos) as nat, |k: int| self.data@[self.pos + k]->0)
    }
}

impl<T, const N: usize, const I: usize> View for VectorChunks<T, N, I> {
    type V = Seq<Seq<T>>;

    /// The chunks not yet handed out, in order.
    closed spec fn view(&self) -> Seq<Seq<T>> {
        unflatten(self.left(), ((N - self.pos) as int / (I as int)) as nat, I as nat)
    }
}

impl<T, const N: usize, const I: usize> VectorChunks<T, N, I> {
    #[verifier::type_invariant]
    spec fn well_formed(self) -> bool {
        &&& I > 0
        &&& N % I == 0
        &&& self.pos <= N
        &&& self.pos % I == 0
        &&& forall|k: int| self.pos <= k < N ==> #[trigger] self.data@[k] is Some
    }

    fn new(data: [T; N]) -> (chunks: Self)
        requires
            I > 0,
            N % I == 0,
        ensures
            chunks@ == unflatten(data@, (N / I) as nat, I as nat),
    {
        assert(0usize % I == 0) by (nonlinear_arith)
            requires
                I > 0,
        ;
        let chunks = VectorChunks { data: array_wrap(data), pos: 0 };
        assert(chunks.left() =~= data@);
        chunks
    }

    /// The number of chunks not yet handed out.
    pub fn len(&self) -> (n: usize)
        ensures
            n == self@.len(),
    {
        proof {
            use_type_invariant(self);
        }
        (N - self.pos) / I
    }

    /// Bounds on the number of chunks left; both are exact.
    pub fn size_hint(&self) -> (hint: (usize, Option<usize>))
        ensures
            hint.0 == self@.len(),
            hint.1 == Some(hint.0),
    {
        let n = self.len();
        (n, Some(n))
    }

    /// Hands out the next chunk, or `None` once every chunk has been handed
    /// out.
    pub fn next(&mut self) -> (chunk: Option<Vector<T, I>>)
        ensures
            old(self)@.len() == 0 ==> chunk is None,
            old(self)@.len() > 0 ==> (chunk matches Some(c) && c@ == old(self)@[0]),
            final(self)@ == after_next(old(self)@),
    {
        proof {
            use_type_invariant(&*self);
        }
        if self.size_hint().1 == Some(0) {
            proof {
                if self.pos < N {
                    lemma_next_multiple(self.pos as int, N as int, I as int);
                }
            }
            return None;
        }
        let start = self.pos;
        let ghost rest = self.left();
        let ghost n = ((N - start) as int / (I as int)) as nat;
        proof {
            lemma_next_multiple(start as int, N as int, I as int);
            lemma_unflatten_drop_first(rest, n, I as nat);
        }
        // take the elements out with the iterator emptied, then put the
        // ones not handed out back
        self.pos = N;
        let mut data: [Option<T>; N] = empty_array();
        std::mem::swap(&mut data, &mut self.data);
        let mut part: [Option<T>; I] = empty_array();
        for k in 0..I
            invariant
                start + I <= N,
                rest == old(self).left(),
                start == old(self).pos,
                forall|q: int| start + k <= q < N ==> #[trigger] data@[q] == old(self).data@[q],
                forall|q: int| start <= q < N ==> (#[trigger] old(self).data@[q]) is Some,
                forall|q: int| 0 <= q < k ==> #[trigger] part@[q] == Some(rest[q]),
        {
            let x = data[start + k].take();
            part[k] = x;
        }
        self.data = data;
        self.pos = start + I;
        let out = array_unwrap(part);
        proof {
            assert(out@ =~= rest.subrange(0, I as int));
            assert(self.left() =~= rest.subrange(I as int, rest.len() as int));
        }
        Some(Vector(out))
    }
}

/// Cutting `n >= 1` rows of `d` elements off `rest`: the first row is the
/// first `d` elements, and the other rows are those of what follows them.
proof fn lemma_unflatten_drop_first<T>(rest: Seq<T>, n: nat, d: nat)
    requires
        n >= 1,
        rest.len() == n * d,
    ensures
        unflatten(rest, n, d)[0] == rest.subrange(0, d as int),
        unflatten(rest, n, d).drop_first() == unflatten(
            rest.subrange(d as int, rest.len() as int),
            (n - 1) as nat,
            d,
        ),
{
    let tail = rest.subrange(d as int, rest.len() as int);
    assert(0 * d == 0) by (nonlinear_arith);
    assert(d <= n * d) by (nonlinear_arith)
        requires
            n >= 1,
    ;
    assert forall|j: int| 0 <= j < n - 1 implies #[trigger] unflatten(rest, n, d).drop_first()[j]
        =~= unflatten(tail, (n - 1) as nat, d)[j] by {
        assert((j + 1) * d == j * d + d && 0 <= j * d && j * d + d + d <= n * d) by (nonlinear_arith)
            requires
                0 <= j < n - 1,
        ;
    }
    assert(unflatten(rest, n, d).drop_first() =~= unflatten(tail, (n - 1) as nat, d));
}

/// Between two multiples `p < n` of `d` there is room for one more step of
/// `d`, and taking it leaves one multiple of `d` fewer.
proof fn lemma_next_multiple(p: int, n: int, d: int)
    requires
        d > 0,
        0 <= p < n,
        p % d == 0,
        n % d == 0,
    ensures
        p + d <= n,
        (p + d) % d == 0,
        (n - p) / d >= 1,
        n - p == ((n - p) / d) * d,
        (n - p - d) / d == (n - p) / d - 1,
{
    let a = p / d;
    let b = n / d;
    lemma_fundamental_div_mod(p, d);
    lemma_fundamental_div_mod(n, d);
    assert(p == a * d && n == b * d) by {
        lemma_mul_is_commutative(a, d);
        lemma_mul_is_commutative(b, d);
    }
    lemma_mul_strict_inequality_converse(a, b, d);
    lemma_mul_inequality(a + 1, b, d);
    lemma_mul_is_distributive_add_other_way(d, a, 1);
    lemma_mod_multiples_basic(a + 1, d);
    lemma_mul_is_distributive_sub_other_way(d, b, a);
    lemma_mul_is_commutative(b - a, d);
    lemma_div_multiples_vanish(b - a, d);
    lemma_mul_is_distributive_sub_other_way(d, b - a, 1);
    lemma_mul_is_commutative(b - a - 1, d);
    lemma_div_multiples_vanish(b - a - 1, d);
}

} // verus!
