use tensor_graph::ndarray::ndarray::{index_to_i, IntoNDArray, NDArray};
use tensor_graph::ndarray::ops::mat_mul;
use tensor_graph::ndarray::shape::{Const, Dim, Shape};

#[test]
fn test_shape_strides_and_element_count() {
    let shape = Shape::new(vec![2usize, 3usize, 4usize]);
    assert_eq!(shape.n_dims(), 3);
    assert_eq!(shape.shape(), &vec![2usize, 3usize, 4usize]);
    assert_eq!(shape.strides(), vec![12usize, 4usize, 1usize]);
    assert_eq!(shape.n_elements(), 24);
}

#[test]
fn test_rank0_shape_is_one_element() {
    let shape = Shape::new(Vec::new());
    assert_eq!(shape.n_dims(), 0);
    assert_eq!(shape.n_elements(), 1);
    assert_eq!(shape.strides(), Vec::<usize>::new());
}

#[test]
fn test_const_dim_reports_its_extent() {
    assert_eq!(Const::<7>.size(), 7);
    assert_eq!(Const::<0>.size(), 0);
}

#[test]
fn test_index_to_i_row_major() {
    let shape = Shape::new(vec![2usize, 3usize]);
    let strides = shape.strides();
    assert_eq!(index_to_i(&shape, &strides, &vec![0usize, 0usize]), 0);
    assert_eq!(index_to_i(&shape, &strides, &vec![0usize, 2usize]), 2);
    assert_eq!(index_to_i(&shape, &strides, &vec![1usize, 2usize]), 5);
}

#[test]
fn test_eye_diagonal() {
    let eye: NDArray<i32> = NDArray::eye(3);
    assert_eq!(eye.shape.shape(), &vec![3usize, 3usize]);
    for i in 0..3usize {
        for j in 0..3usize {
            let expected = if i == j { 1 } else { 0 };
            assert_eq!(eye.index(&vec![i, j]), expected);
        }
    }
}

#[test]
fn test_zeros_and_ones_fill() {
    let zeros: NDArray<i32> = NDArray::zeros(Shape::new(vec![2usize, 3usize]));
    let ones: NDArray<i32> = NDArray::ones(Shape::new(vec![2usize, 3usize]));
    for i in 0..2usize {
        for j in 0..3usize {
            assert_eq!(zeros.index(&vec![i, j]), 0);
            assert_eq!(ones.index(&vec![i, j]), 1);
        }
    }
}

#[test]
fn test_zeros_of_empty_axis_has_no_elements() {
    let zeros: NDArray<i32> = NDArray::zeros(Shape::new(vec![0usize]));
    assert_eq!(zeros.shape.n_elements(), 0);
    assert_eq!(zeros.data.len(), 0);
}

#[test]
fn test_double_negation_is_identity() {
    let arr = [3, -4, i32::MIN, 0].into_array();
    let back = arr.neg().neg();
    for k in 0..4usize {
        assert_eq!(back.index(&vec![k]), arr.index(&vec![k]));
    }
}

#[test]
fn test_addition_wraps_like_the_element_type() {
    let arr1 = [i32::MAX, 1].into_array();
    let arr2 = [1, 1].into_array();
    let sum = arr1.add(&arr2);
    assert_eq!(sum.index(&vec![0usize]), i32::MIN);
    assert_eq!(sum.index(&vec![1usize]), 2);
}

#[test]
fn test_division_truncates_toward_zero() {
    let arr1 = [-7, 7, -7, 7].into_array();
    let arr2 = [2, 2, -2, -2].into_array();
    let quot = arr1.div(&arr2);
    assert_eq!(quot.index(&vec![0usize]), -3);
    assert_eq!(quot.index(&vec![1usize]), 3);
    assert_eq!(quot.index(&vec![2usize]), 3);
    assert_eq!(quot.index(&vec![3usize]), -3);

    let scalar_quot = arr1.div_scalar(2);
    assert_eq!(scalar_quot.index(&vec![0usize]), -3);
    assert_eq!(scalar_quot.index(&vec![1usize]), 3);
}

#[test]
fn test_mat_mul_by_identity() {
    let arr = [[1, 2], [3, 4], [5, 6]].into_array();
    let eye: NDArray<i32> = NDArray::eye(2);
    let prod = mat_mul(&arr, &eye);
    for i in 0..3usize {
        for j in 0..2usize {
            assert_eq!(prod.index(&vec![i, j]), arr.index(&vec![i, j]));
        }
    }
}

#[test]
fn test_mat_mul_contracts_inner_dimension() {
    let row = [[1, 2, 3]].into_array();
    let col = [[4], [5], [6]].into_array();
    let prod = mat_mul(&row, &col);
    assert_eq!(prod.shape.shape(), &vec![1usize, 1usize]);
    assert_eq!(prod.index(&vec![0usize, 0usize]), 32);
}
