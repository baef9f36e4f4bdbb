use tensor_graph::ndarray::ndarray::IntoNDArray;
use tensor_graph::ndarray::ops::mat_mul;

#[test]
fn test_rank0() {
    let arr = [1].into_array();
    assert_eq!(arr.index(&vec![0usize]), 1);
}

#[test]
fn test_rank1() {
    let arr = [1, 2, 3].into_array();
    assert_eq!(arr.index(&vec![0usize]), 1);
    assert_eq!(arr.index(&vec![1usize]), 2);
    assert_eq!(arr.index(&vec![2usize]), 3);
}

#[test]
fn test_rank2() {
    let arr = [[1, 2, 3], [4, 5, 6]].into_array();
    assert_eq!(arr.index(&vec![0usize, 0usize]), 1);
    assert_eq!(arr.index(&vec![0usize, 1usize]), 2);
    assert_eq!(arr.index(&vec![0usize, 2usize]), 3);
    assert_eq!(arr.index(&vec![1usize, 0usize]), 4);
    assert_eq!(arr.index(&vec![1usize, 1usize]), 5);
    assert_eq!(arr.index(&vec![1usize, 2usize]), 6);
}

#[test]
fn test_addition() {
    let arr1 = [1, 2, 3].into_array();
    let arr2 = [4, 5, 6].into_array();
    let sum = arr1.add(&arr2);
    assert_eq!(sum.index(&vec![0usize]), 5);
    assert_eq!(sum.index(&vec![1usize]), 7);
    assert_eq!(sum.index(&vec![2usize]), 9);

    let scalar_sum = arr1.add_scalar(1);
    assert_eq!(scalar_sum.index(&vec![0usize]), 2);
    assert_eq!(scalar_sum.index(&vec![1usize]), 3);
    assert_eq!(scalar_sum.index(&vec![2usize]), 4);
}

#[test]
fn tests_test_subtraction() {
    let arr1 = [1, 2, 3].into_array();
    let arr2 = [4, 5, 6].into_array();
    let diff = arr1.sub(&arr2);
    assert_eq!(diff.index(&vec![0usize]), -3);
    assert_eq!(diff.index(&vec![1usize]), -3);
    assert_eq!(diff.index(&vec![2usize]), -3);

    let scalar_diff = arr1.sub_scalar(1);
    assert_eq!(scalar_diff.index(&vec![0usize]), 0);
    assert_eq!(scalar_diff.index(&vec![1usize]), 1);
    assert_eq!(scalar_diff.index(&vec![2usize]), 2);
}

#[test]
fn tests_test_multiplication() {
    let arr1 = [1, 2, 3].into_array();
    let arr2 = [4, 5, 6].into_array();
    let prod = arr1.mul(&arr2);
    assert_eq!(prod.index(&vec![0usize]), 4);
    assert_eq!(prod.index(&vec![1usize]), 10);
    assert_eq!(prod.index(&vec![2usize]), 18);

    let scalar_prod = arr1.mul_scalar(2);
    assert_eq!(scalar_prod.index(&vec![0usize]), 2);
    assert_eq!(scalar_prod.index(&vec![1usize]), 4);
    assert_eq!(scalar_prod.index(&vec![2usize]), 6);
}

#[test]
fn test_mat_mul() {
    let arr1 = [[0, 1, 2], [3, 4, 5]].into_array();
    let arr2 = [[1, 0], [0, 1], [0, 0]].into_array();
    let prod = mat_mul(&arr1, &arr2);
    assert_eq!(prod.index(&vec![0usize, 0usize]), 0);
    assert_eq!(prod.index(&vec![0usize, 1usize]), 1);
    assert_eq!(prod.index(&vec![1usize, 0usize]), 3);
    assert_eq!(prod.index(&vec![1usize, 1usize]), 4);
}
