//! Sums folded from the left, and how they behave in a ring: the facts that
//! the associativity of the matrix product rests on.
use vstd::prelude::*;
use std::ops::{Add, Mul};
use vstd::std_specs::ops::{AddSpec, MulSpec};
use crate::seqs::{column, dot};

verus! {

/// `s[0] + s[1] + ... + s[len - 1]`, summed from the left, for a nonempty `s`.
pub open spec fn sum_left<T: Add<Output = T>>(s: Seq<T>) -> T
    decreases s.len(),
{
    if s.len() <= 1 {
        s[0]
    } else {
        sum_left(s.drop_last()).add_spec(s.last())
    }
}

/// The element type's `+` and `*`, as vstd specifies them, form a ring
/// (without needing its neutral elements): `+` is associative and
/// commutative, `*` is associative and distributes over `+` on both sides.
pub open spec fn ring_laws<T: Add<Output = T> + Mul<Output = T>>() -> bool {
    &&& forall|x: T, y: T, z: T| #[trigger] x.add_spec(y).add_spec(z) == x.add_spec(y.add_spec(z))
    &&& forall|x: T, y: T| #[trigger] x.add_spec(y) == y.add_spec(x)
    &&& forall|x: T, y: T, z: T| #[trigger] x.mul_spec(y).mul_spec(z) == x.mul_spec(y.mul_spec(z))
    &&& forall|x: T, y: T, z: T|
        #[trigger] x.add_spec(y).mul_spec(z) == x.mul_spec(z).add_spec(y.mul_spec(z))
    &&& forall|x: T, y: T, z: T|
        #[trigger] x.mul_spec(y.add_spec(z)) == x.mul_spec(y).add_spec(x.mul_spec(z))
}

/// Wrapping 32-bit arithmetic, which is what `i32`'s `+` and `*` compute
/// wherever they do not overflow, forms a ring.
pub proof fn lemma_ring_laws_i32()
    ensures
        ring_laws::<i32>(),
{
    assert forall|x: i32, y: i32, z: i32| #[trigger] x.add_spec(y).add_spec(z) == x.add_spec(
        y.add_spec(z),
    ) by {
        assert(((((x + y) as i32) + z) as i32) == ((x + ((y + z) as i32)) as i32)) by (bit_vector);
    }
    assert forall|x: i32, y: i32| #[trigger] x.add_spec(y) == y.add_spec(x) by {}
    assert forall|x: i32, y: i32, z: i32| #[trigger] x.mul_spec(y).mul_spec(z) == x.mul_spec(
        y.mul_spec(z),
    ) by {
        assert(((((x * y) as i32) * z) as i32) == ((x * ((y * z) as i32)) as i32)) by (bit_vector);
    }
    assert forall|x: i32, y: i32, z: i32| #[trigger] x.add_spec(y).mul_spec(z) == x.mul_spec(
        z,
    ).add_spec(y.mul_spec(z)) by {
        assert(((((x + y) as i32) * z) as i32) == ((((x * z) as i32) + ((y * z) as i32)) as i32))
            by (bit_vector);
    }
    assert forall|x: i32, y: i32, z: i32| #[trigger] x.mul_spec(y.add_spec(z)) == x.mul_spec(
        y,
    ).add_spec(x.mul_spec(z)) by {
        assert(((x * ((y + z) as i32)) as i32) == ((((x * y) as i32) + ((x * z) as i32)) as i32))
            by (bit_vector);
    }
}

/// The products `a[i] * b[i]` for `i < k`.
pub open spec fn products<T: Mul<Output = T>>(a: Seq<T>, b: Seq<T>, k: nat) -> Seq<T> {
    Seq::new(k, |i: int| a[i].mul_spec(b[i]))
}

/// `dot` is the sum of the products.
pub proof fn lemma_dot_is_sum<T: Add<Output = T> + Mul<Output = T>>(a: Seq<T>, b: Seq<T>, k: nat)
    requires
        k >= 1,
    ensures
        dot(a, b, k) == sum_left(products(a, b, k)),
    decreases k,
{
    if k > 1 {
        lemma_dot_is_sum(a, b, (k - 1) as nat);
        assert(products(a, b, k).drop_last() =~= products(a, b, (k - 1) as nat));
    }
}

/// Two sums of equal length added together are the sum of the pairwise sums.
pub proof fn lemma_sum_add<T: Add<Output = T> + Mul<Output = T>>(s: Seq<T>, t: Seq<T>)
    requires
        ring_laws::<T>(),
        s.len() >= 1,
        t.len() == s.len(),
    ensures
        sum_left(s).add_spec(sum_left(t)) == sum_left(
            Seq::new(s.len(), |i: int| s[i].add_spec(t[i])),
        ),
    decreases s.len(),
{
    let z = Seq::new(s.len(), |i: int| s[i].add_spec(t[i]));
    if s.len() > 1 {
        let s1 = s.drop_last();
        let t1 = t.drop_last();
        lemma_sum_add(s1, t1);
        assert(z.drop_last() =~= Seq::new(s1.len(), |i: int| s1[i].add_spec(t1[i])));
        let ss = sum_left(s1);
        let tt = sum_left(t1);
        let a = s.last();
        let b = t.last();
        assert(ss.add_spec(a).add_spec(tt.add_spec(b)) == ss.add_spec(a.add_spec(tt.add_spec(b))));
        assert(a.add_spec(tt).add_spec(b) == a.add_spec(tt.add_spec(b)));
        assert(a.add_spec(tt) == tt.add_spec(a));
        assert(tt.add_spec(a).add_spec(b) == tt.add_spec(a.add_spec(b)));
        assert(ss.add_spec(tt).add_spec(a.add_spec(b)) == ss.add_spec(tt.add_spec(a.add_spec(b))));
    }
}

/// A sum multiplied on the right by `y` is the sum of its terms times `y`.
pub proof fn lemma_sum_mul_right<T: Add<Output = T> + Mul<Output = T>>(s: Seq<T>, y: T)
    requires
        ring_laws::<T>(),
        s.len() >= 1,
    ensures
        sum_left(s).mul_spec(y) == sum_left(Seq::new(s.len(), |i: int| s[i].mul_spec(y))),
    decreases s.len(),
{
    let z = Seq::new(s.len(), |i: int| s[i].mul_spec(y));
    if s.len() > 1 {
        let s1 = s.drop_last();
        lemma_sum_mul_right(s1, y);
        assert(z.drop_last() =~= Seq::new(s1.len(), |i: int| s1[i].mul_spec(y)));
        assert(sum_left(s1).add_spec(s.last()).mul_spec(y) == sum_left(s1).mul_spec(y).add_spec(
            s.last().mul_spec(y),
        ));
    }
}

/// `y` times a sum is the sum of `y` times its terms.
pub proof fn lemma_sum_mul_left<T: Add<Output = T> + Mul<Output = T>>(y: T, s: Seq<T>)
    requires
        ring_laws::<T>(),
        s.len() >= 1,
    ensures
        y.mul_spec(sum_left(s)) == sum_left(Seq::new(s.len(), |i: int| y.mul_spec(s[i]))),
    decreases s.len(),
{
    let z = Seq::new(s.len(), |i: int| y.mul_spec(s[i]));
    if s.len() > 1 {
        let s1 = s.drop_last();
        lemma_sum_mul_left(y, s1);
        assert(z.drop_last() =~= Seq::new(s1.len(), |i: int| y.mul_spec(s1[i])));
        assert(y.mul_spec(sum_left(s1).add_spec(s.last())) == y.mul_spec(sum_left(s1)).add_spec(
            y.mul_spec(s.last()),
        ));
    }
}

/// The sums of the rows of `g`.
pub open spec fn row_sums<T: Add<Output = T>>(g: Seq<Seq<T>>) -> Seq<T> {
    Seq::new(g.len(), |q: int| sum_left(g[q]))
}

/// The sums of the first `cols` columns of `g`.
pub open spec fn col_sums<T: Add<Output = T>>(g: Seq<Seq<T>>, cols: nat) -> Seq<T> {
    Seq::new(cols, |s: int| sum_left(column(g, s)))
}

/// Summing a grid row by row or column by column gives the same total.
pub proof fn lemma_sum_exchange<T: Add<Output = T> + Mul<Output = T>>(g: Seq<Seq<T>>, cols: nat)
    requires
        ring_laws::<T>(),
        g.len() >= 1,
        cols >= 1,
        forall|q: int| 0 <= q < g.len() ==> (#[trigger] g[q]).len() == cols,
    ensures
        sum_left(col_sums(g, cols)) == sum_left(row_sums(g)),
    decreases cols,
{
    if cols == 1 {
        assert(row_sums(g) =~= column(g, 0));
    } else {
        let c1 = (cols - 1) as nat;
        let h = Seq::new(g.len(), |q: int| g[q].drop_last());
        lemma_sum_exchange(h, c1);
        assert(col_sums(g, cols).drop_last() =~= col_sums(h, c1)) by {
            assert forall|s: int| 0 <= s < c1 implies column(g, s) =~= column(h, s) by {}
        }
        let last = column(g, c1 as int);
        lemma_sum_add(row_sums(h), last);
        assert(Seq::new(g.len(), |i: int| row_sums(h)[i].add_spec(last[i])) =~= row_sums(g)) by {
            assert forall|q: int| 0 <= q < g.len() implies row_sums(h)[q].add_spec(last[q])
                == #[trigger] row_sums(g)[q] by {
                assert(g[q].drop_last() == h[q]);
            }
        }
    }
}

} // verus!
