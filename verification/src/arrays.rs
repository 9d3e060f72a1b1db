//! Building an array element by element.
use vstd::prelude::*;

verus! {

/// Calls `core::array::from_fn`, which, as std documents it, builds the
/// array whose element `i` is what `f` returns for `i`, calling `f` once for
/// each index. The contract claims exactly that: each element is a possible
/// result of `f` on its index.
#[verifier::external_body]
pub(crate) fn array_from_fn<T, const N: usize, F: Fn(usize) -> T>(f: F) -> (a: [T; N])
    requires
        forall|i: usize| i < N ==> #[trigger] call_requires(f, (i,)),
    ensures
        forall|i: int| 0 <= i < N ==> call_ensures(f, (i as usize,), #[trigger] a@[i]),
{
    core::array::from_fn(f)
}

/// Calls `<[T; N]>::map`, which, as std documents it, consumes the array
/// and gives the array of what `f` returns for each element, in order. The
/// contract claims exactly that: each element of the result is a possible
/// result of `f` on the element at the same place.
#[verifier::external_body]
pub(crate) fn array_map<T, U, const N: usize, F: Fn(T) -> U>(a: [T; N], f: F) -> (b: [U; N])
    requires
        forall|i: int| 0 <= i < N ==> call_requires(f, (#[trigger] a@[i],)),
    ensures
        forall|i: int| 0 <= i < N ==> call_ensures(f, (a@[i],), #[trigger] b@[i]),
{
    a.map(f)
}

/// The array of `N` empty places.
pub(crate) fn empty_array<T, const N: usize>() -> (a: [Option<T>; N])
    ensures
        forall|i: int| 0 <= i < N ==> #[trigger] a@[i] is None,
{
    array_from_fn(
        (|_i: usize| -> (o: Option<T>)
            ensures
                o is None,
            {
                let o = None;
                o
            }),
    )
}

/// Every element of `a` put in its place.
pub(crate) fn array_wrap<T, const N: usize>(a: [T; N]) -> (b: [Option<T>; N])
    ensures
        forall|i: int| 0 <= i < N ==> #[trigger] b@[i] == Some(a@[i]),
{
    array_map(
        a,
        (|x: T| -> (o: Option<T>)
            ensures
                o == Some(x),
            {
                let o = Some(x);
                o
            }),
    )
}

/// The elements of an array whose places are all filled.
pub(crate) fn array_unwrap<T, const N: usize>(a: [Option<T>; N]) -> (b: [T; N])
    requires
        forall|i: int| 0 <= i < N ==> #[trigger] a@[i] is Some,
    ensures
        forall|i: int| 0 <= i < N ==> a@[i] == Some(#[trigger] b@[i]),
{
    array_map(
        a,
        (|o: Option<T>| -> (x: T)
            requires
                o is Some,
            ensures
                o == Some(x),
            {
                let x = o.unwrap();
                x
            }),
    )
}

} // verus!
