use lib::Vector;

#[test]
fn test_vector_arith() {
    let a = Vector::<i32, 3>::new([1, 2, 3]);
    let b = Vector::new([4, 5, 6]);
    let a_plus_b = Vector::new([5, 7, 9]);
    let a_minus_b = Vector::new([-3, -3, -3]);
    assert_eq!(a + b, a_plus_b);
    assert_eq!(&a + b, a_plus_b);
    assert_eq!(a + &b, a_plus_b);
    assert_eq!(&a + &b, a_plus_b);
    assert_eq!(a - b, a_minus_b);
    assert_eq!(&a - b, a_minus_b);
    assert_eq!(a - &b, a_minus_b);
    assert_eq!(&a - &b, a_minus_b);
}

#[test]
fn test_vector_chunks() {
    let arr: Vector<i32, 6> = Vector::new([1, 2, 3, 4, 5, 6]);
    let mut it = arr.into_chunks::<2>();
    let a: [i32; 2] = it.next().unwrap().into_inner();
    assert_eq!(a, [1, 2]);
    let a: [i32; 2] = it.next().unwrap().into_inner();
    assert_eq!(a, [3, 4]);
    assert_eq!(it.len(), 1);
}

#[test]
fn test_array() {
    let a: Vector<i32, { 8 - 3 }> = Default::default();
    assert_eq!(a.len(), 5);
    let _: [i32; 5] = a.into_inner();
}

#[test]
fn vector_new_deref_gives_the_array() {
    let arr = Vector::<i32, 5>::new([1, 2, 3, 4, 5]);
    assert_eq!(*arr, [1, 2, 3, 4, 5]);
    assert_eq!(arr.as_slice(), &[1, 2, 3, 4, 5][..]);
    assert_eq!(arr.into_inner(), [1, 2, 3, 4, 5]);
}

#[test]
fn vector_as_slice_mut_writes_through() {
    let mut v = Vector::<i64, 3>::new([7, 8, 9]);
    v.as_slice_mut()[1] = 80;
    assert_eq!(v.into_inner(), [7, 80, 9]);
}

#[test]
fn vector_chunks_run_out() {
    let v = Vector::<u8, 6>::new([1, 2, 3, 4, 5, 6]);
    let mut it = v.into_chunks::<3>();
    assert_eq!(it.len(), 2);
    assert_eq!(it.size_hint(), (2, Some(2)));
    assert_eq!(it.next().unwrap().into_inner(), [1, 2, 3]);
    assert_eq!(it.next().unwrap().into_inner(), [4, 5, 6]);
    assert_eq!(it.len(), 0);
    assert!(it.next().is_none());
    assert!(it.next().is_none());
}

#[test]
fn vector_chunks_of_one_whole() {
    let v = Vector::<i32, 4>::new([9, 8, 7, 6]);
    let mut it = v.into_chunks::<4>();
    assert_eq!(it.next().unwrap().into_inner(), [9, 8, 7, 6]);
    assert!(it.next().is_none());
}

#[test]
fn vector_eq_compares_every_element() {
    let a = Vector::<i32, 3>::new([1, 2, 3]);
    assert!(a == Vector::new([1, 2, 3]));
    assert!(a != Vector::new([1, 2, 4]));
    assert!(a != Vector::new([0, 2, 3]));
}

#[test]
fn vector_add_then_sub_restores() {
    let a = Vector::<i64, 4>::new([10, -20, 30, i64::MAX - 5]);
    let b = Vector::new([1, 2, 3, 5]);
    assert_eq!((a + b) - b, a);
    assert_eq!(a + b, b + a);
}

#[test]
fn vector_default_is_zero() {
    let v: Vector<u32, 3> = Vector::default();
    assert_eq!(v.into_inner(), [0, 0, 0]);
}

#[test]
fn vector_clone_is_equal() {
    let v = Vector::<i64, 3>::new([5, -6, 7]);
    assert_eq!(v.clone(), v);
}

#[test]
fn vector_chunks_then_none_forever() {
    let v = Vector::<i32, 4>::new([1, 2, 3, 4]);
    let mut it = v.into_chunks::<2>();
    assert_eq!(it.size_hint(), (2, Some(2)));
    assert_eq!(it.next().unwrap().into_inner(), [1, 2]);
    assert_eq!(it.size_hint(), (1, Some(1)));
    assert_eq!(it.next().unwrap().into_inner(), [3, 4]);
    assert_eq!(it.size_hint(), (0, Some(0)));
    for _ in 0..3 {
        assert!(it.next().is_none());
    }
}

#[test]
fn vector_chunks_of_strings() {
    let s = |x: &str| x.to_string();
    let v = Vector::<String, 4>::new([s("a"), s("b"), s("c"), s("d")]);
    let mut it = v.into_chunks::<2>();
    assert_eq!(it.next().unwrap().into_inner(), [s("a"), s("b")]);
    assert_eq!(it.len(), 1);
    assert_eq!(it.next().unwrap().into_inner(), [s("c"), s("d")]);
    assert!(it.next().is_none());
    let d: Vector<String, 2> = Vector::default();
    assert_eq!(d.into_inner(), [String::new(), String::new()]);
}
