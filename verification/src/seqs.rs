//! Mathematical models of the vector and matrix operations, over `Seq`.
//!
//! The element type's own operators are described by vstd's `AddSpec`,
//! `SubSpec` and `MulSpec`: `x.add_req(y)` says when `x + y` may be computed
//! (for the primitive integers: when it does not overflow) and
//! `x.add_spec(y)` is its value.
use vstd::prelude::*;
use std::ops::{Add, Mul, Sub};
use vstd::std_specs::ops::{AddSpec, MulSpec, SubSpec};

verus! {

/// Element-wise sum.
pub open spec fn seq_add<T: Add<Output = T>>(a: Seq<T>, b: Seq<T>) -> Seq<T> {
    Seq::new(a.len(), |i: int| a[i].add_spec(b[i]))
}

/// Element-wise difference.
pub open spec fn seq_sub<T: Sub<Output = T>>(a: Seq<T>, b: Seq<T>) -> Seq<T> {
    Seq::new(a.len(), |i: int| a[i].sub_spec(b[i]))
}

/// Every element multiplied on the right by `s`.
pub open spec fn seq_scale<T: Mul<Output = T>>(a: Seq<T>, s: T) -> Seq<T> {
    Seq::new(a.len(), |i: int| a[i].mul_spec(s))
}

/// Each pair `a[i] + b[i]` may be computed.
pub open spec fn seq_add_req<T: Add<Output = T>>(a: Seq<T>, b: Seq<T>) -> bool {
    forall|i: int| 0 <= i < a.len() ==> (#[trigger] a[i]).add_req(b[i])
}

/// Each pair `a[i] - b[i]` may be computed.
pub open spec fn seq_sub_req<T: Sub<Output = T>>(a: Seq<T>, b: Seq<T>) -> bool {
    forall|i: int| 0 <= i < a.len() ==> (#[trigger] a[i]).sub_req(b[i])
}

/// Each product `a[i] * s` may be computed.
pub open spec fn seq_scale_req<T: Mul<Output = T>>(a: Seq<T>, s: T) -> bool {
    forall|i: int| 0 <= i < a.len() ==> (#[trigger] a[i]).mul_req(s)
}

/// Element-wise sum of two matrices given as rows.
pub open spec fn mat_add<T: Add<Output = T>>(a: Seq<Seq<T>>, b: Seq<Seq<T>>) -> Seq<Seq<T>> {
    Seq::new(a.len(), |j: int| seq_add(a[j], b[j]))
}

/// Element-wise difference of two matrices given as rows.
pub open spec fn mat_sub<T: Sub<Output = T>>(a: Seq<Seq<T>>, b: Seq<Seq<T>>) -> Seq<Seq<T>> {
    Seq::new(a.len(), |j: int| seq_sub(a[j], b[j]))
}

/// Every element of a matrix multiplied on the right by `s`.
pub open spec fn mat_scale<T: Mul<Output = T>>(a: Seq<Seq<T>>, s: T) -> Seq<Seq<T>> {
    Seq::new(a.len(), |j: int| seq_scale(a[j], s))
}

pub open spec fn mat_add_req<T: Add<Output = T>>(a: Seq<Seq<T>>, b: Seq<Seq<T>>) -> bool {
    forall|j: int| 0 <= j < a.len() ==> seq_add_req(#[trigger] a[j], b[j])
}

pub open spec fn mat_sub_req<T: Sub<Output = T>>(a: Seq<Seq<T>>, b: Seq<Seq<T>>) -> bool {
    forall|j: int| 0 <= j < a.len() ==> seq_sub_req(#[trigger] a[j], b[j])
}

pub open spec fn mat_scale_req<T: Mul<Output = T>>(a: Seq<Seq<T>>, s: T) -> bool {
    forall|j: int| 0 <= j < a.len() ==> seq_scale_req(#[trigger] a[j], s)
}

/// Column `c` of a matrix given as rows.
pub open spec fn column<T>(m: Seq<Seq<T>>, c: int) -> Seq<T> {
    Seq::new(m.len(), |r: int| m[r][c])
}

/// The transpose of a matrix with `cols` columns, given as rows: its
/// columns in order.
pub open spec fn transpose<T>(m: Seq<Seq<T>>, cols: nat) -> Seq<Seq<T>> {
    Seq::new(cols, |c: int| column(m, c))
}

/// The rows laid end to end.
pub open spec fn flatten<T>(m: Seq<Seq<T>>) -> Seq<T>
    decreases m.len(),
{
    if m.len() == 0 {
        Seq::empty()
    } else {
        flatten(m.drop_last()) + m.last()
    }
}

/// A row-major sequence of `rows * cols` elements cut into `rows` rows.
pub open spec fn unflatten<T>(s: Seq<T>, rows: nat, cols: nat) -> Seq<Seq<T>> {
    Seq::new(rows, |j: int| s.subrange(j * cols, j * cols + cols))
}

/// The products `a[0] * b[0]`, ..., `a[k-1] * b[k-1]` summed from the
/// left, for `k >= 1`.
pub open spec fn dot<T: Add<Output = T> + Mul<Output = T>>(a: Seq<T>, b: Seq<T>, k: nat) -> T
    decreases k,
{
    if k <= 1 {
        a[0].mul_spec(b[0])
    } else {
        dot(a, b, (k - 1) as nat).add_spec(a[k - 1].mul_spec(b[k - 1]))
    }
}

/// Each product and each partial sum of `dot(a, b, k)` may be computed.
pub open spec fn dot_req<T: Add<Output = T> + Mul<Output = T>>(a: Seq<T>, b: Seq<T>, k: nat) -> bool
    decreases k,
{
    if k <= 1 {
        a[0].mul_req(b[0])
    } else {
        &&& dot_req(a, b, (k - 1) as nat)
        &&& a[k - 1].mul_req(b[k - 1])
        &&& dot(a, b, (k - 1) as nat).add_req(a[k - 1].mul_spec(b[k - 1]))
    }
}

/// The product of an `a.len() x n` matrix and an `n x cols` matrix.
pub open spec fn mat_mul<T: Add<Output = T> + Mul<Output = T>>(
    a: Seq<Seq<T>>,
    b: Seq<Seq<T>>,
    n: nat,
    cols: nat,
) -> Seq<Seq<T>> {
    Seq::new(a.len(), |r: int| Seq::new(cols, |c: int| dot(a[r], column(b, c), n)))
}

/// Every entry of `mat_mul(a, b, n, cols)` may be computed.
pub open spec fn mat_mul_req<T: Add<Output = T> + Mul<Output = T>>(
    a: Seq<Seq<T>>,
    b: Seq<Seq<T>>,
    n: nat,
    cols: nat,
) -> bool {
    forall|r: int, c: int|
        0 <= r < a.len() && 0 <= c < cols ==> #[trigger] dot_req(a[r], column(b, c), n)
}

/// What an iterator whose items left are `rest` has left after one more
/// call of `next`: all but the first, or nothing once nothing is left.
pub open spec fn after_next<A>(rest: Seq<A>) -> Seq<A> {
    if rest.len() == 0 {
        rest
    } else {
        rest.drop_first()
    }
}

/// What such an iterator has left after `k` more calls of `next`.
pub open spec fn after_calls<A>(rest: Seq<A>, k: nat) -> Seq<A>
    decreases k,
{
    if k == 0 {
        rest
    } else {
        after_next(after_calls(rest, (k - 1) as nat))
    }
}

/// `base` with its first `k` elements replaced by those of `s`.
pub open spec fn overwrite<T, const N: usize>(base: [T; N], s: Seq<T>, k: nat) -> [T; N]
    decreases k,
{
    if k == 0 {
        base
    } else {
        vstd::array::spec_array_update(overwrite(base, s, (k - 1) as nat), k - 1, s[k - 1])
    }
}

proof fn lemma_overwrite<T, const N: usize>(base: [T; N], s: Seq<T>, k: nat)
    requires
        s.len() == N,
        k <= N,
    ensures
        overwrite(base, s, k)@ == s.take(k as int) + base@.skip(k as int),
    decreases k,
{
    broadcast use vstd::array::group_array_axioms;

    if k > 0 {
        lemma_overwrite(base, s, (k - 1) as nat);
        assert(overwrite(base, s, k)@ =~= s.take(k as int) + base@.skip(k as int));
    }
}

/// Every sequence of length `N` is the view of some `N`-element array.
pub proof fn lemma_array_with_view<T, const N: usize>(base: [T; N], s: Seq<T>)
    requires
        s.len() == N,
    ensures
        overwrite(base, s, N as nat)@ == s,
{
    broadcast use vstd::array::group_array_axioms;

    lemma_overwrite(base, s, N as nat);
    assert(s.take(N as int) + base@.skip(N as int) =~= s);
}

} // verus!
