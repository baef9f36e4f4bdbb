use tensor_graph::computational_graph::grad::Grad;
use tensor_graph::computational_graph::node::{Constant, IdCounter, Node, NodeOutput};
use tensor_graph::ndarray::ndarray::IntoNDArray;

#[test]
fn test_simple_addition() {
    let mut ids = IdCounter::new();
    let a = Node(Constant::new([1, 2].into_array(), &mut ids));
    let b = Node(Constant::new([3, 4].into_array(), &mut ids));
    let mut sum = a.add(b);
    assert_eq!(sum.output().index(&vec![0usize]), 4);
    assert_eq!(sum.output().index(&vec![1usize]), 6);
}

#[test]
fn test_more_complicated_addition() {
    let mut ids = IdCounter::new();
    let a = Node(Constant::new([1, 2, 3].into_array(), &mut ids));
    let b = Node(Constant::new([4, 5, 6].into_array(), &mut ids));
    let c = Node(Constant::new([4, 5, 6].into_array(), &mut ids));
    let sum1 = a.add(b);
    let mut sum2 = sum1.add(c);
    assert_eq!(sum2.output().index(&vec![0usize]), 9);
    assert_eq!(sum2.output().index(&vec![1usize]), 12);
    assert_eq!(sum2.output().index(&vec![2usize]), 15);
}

#[test]
fn test_negation() {
    let mut ids = IdCounter::new();
    let a = Node(Constant::new([1, 2, 3].into_array(), &mut ids));
    let mut neg = a.neg();
    assert_eq!(neg.output().index(&vec![0usize]), -1);
    assert_eq!(neg.output().index(&vec![1usize]), -2);
    assert_eq!(neg.output().index(&vec![2usize]), -3);
}

#[test]
fn test_subtraction() {
    let mut ids = IdCounter::new();
    let a = Node(Constant::new([1, 2, 3].into_array(), &mut ids));
    let b = Node(Constant::new([4, 5, 6].into_array(), &mut ids));
    let mut diff = a.sub(b);
    assert_eq!(diff.output().index(&vec![0usize]), -3);
    assert_eq!(diff.output().index(&vec![1usize]), -3);
    assert_eq!(diff.output().index(&vec![2usize]), -3);
}

#[test]
fn test_multiplication() {
    let mut ids = IdCounter::new();
    let a = Node(Constant::new([1, 2, 3].into_array(), &mut ids));
    let b = Node(Constant::new([4, 5, 6].into_array(), &mut ids));
    let mut prod = a.mul(b);
    assert_eq!(prod.output().index(&vec![0usize]), 4);
    assert_eq!(prod.output().index(&vec![1usize]), 10);
    assert_eq!(prod.output().index(&vec![2usize]), 18);
}

#[test]
fn test_division() {
    let mut ids = IdCounter::new();
    let a = Node(Constant::new([1, 2, 3].into_array(), &mut ids));
    let b = Node(Constant::new([4, 5, 6].into_array(), &mut ids));
    let mut div = a.div(b);
    assert_eq!(div.output().index(&vec![0usize]), 0);
    assert_eq!(div.output().index(&vec![1usize]), 0);
    assert_eq!(div.output().index(&vec![2usize]), 0);
}

#[test]
fn test_node_reuse() {
    let mut ids = IdCounter::new();
    let a = Node(Constant::new([1, 2, 3].into_array(), &mut ids));
    let b = Node(Constant::new([4, 5, 6].into_array(), &mut ids));
    let c = Node(Constant::new([4, 5, 6].into_array(), &mut ids));
    let mut sum1 = a.clone().add(b);
    let mut sum2 = a.add(c);
    assert_eq!(sum1.output().index(&vec![0usize]), 5);
    assert_eq!(sum1.output().index(&vec![1usize]), 7);
    assert_eq!(sum1.output().index(&vec![2usize]), 9);
    assert_eq!(sum2.output().index(&vec![0usize]), 5);
    assert_eq!(sum2.output().index(&vec![1usize]), 7);
    assert_eq!(sum2.output().index(&vec![2usize]), 9);
}

#[test]
fn test_rank0_grad_identity_and_zero() {
    let mut ids = IdCounter::new();
    let a = Node(Constant::new(1.into_array(), &mut ids));
    let b = Node(Constant::new(2.into_array(), &mut ids));
    let mut da_da = a.grad(&a, &mut ids);
    let mut da_db = a.grad(&b, &mut ids);

    assert_eq!(da_da.output().index(&Vec::new()), 1);
    assert_eq!(da_db.output().index(&Vec::new()), 0);
}

#[test]
fn test_rank1_grad_is_identity_matrix() {
    let mut ids = IdCounter::new();
    let a = Node(Constant::new([5, 6, 7].into_array(), &mut ids));
    let b = Node(Constant::new([5, 6, 7].into_array(), &mut ids));
    let da_da = a.grad(&a, &mut ids);
    let da_db = a.grad(&b, &mut ids);

    assert_eq!(da_da.0.array.shape.shape(), &vec![3usize, 3usize]);
    for i in 0..3usize {
        for j in 0..3usize {
            let expected = if i == j { 1 } else { 0 };
            assert_eq!(da_da.0.array.index(&vec![i, j]), expected);
            assert_eq!(da_db.0.array.index(&vec![i, j]), 0);
        }
    }
}

#[test]
fn test_memoization_computes_once() {
    let mut ids = IdCounter::new();
    let a = Node(Constant::new([1, 2].into_array(), &mut ids));
    let b = Node(Constant::new([3, 4].into_array(), &mut ids));
    let c = Node(Constant::new([5, 6].into_array(), &mut ids));
    let inner = a.add(b);
    let mut outer = inner.mul(c);
    assert_eq!(outer.0.evals, 0);
    outer.output();
    outer.output();
    outer.output();
    assert_eq!(outer.0.evals, 1);
    assert_eq!(outer.0.lhs.evals, 1);
    assert_eq!(outer.output().index(&vec![0usize]), 20);
    assert_eq!(outer.output().index(&vec![1usize]), 36);
}

#[test]
fn test_constant_equality_is_identity() {
    let mut ids = IdCounter::new();
    let a = Constant::new([1, 2].into_array(), &mut ids);
    let b = Constant::new([1, 2].into_array(), &mut ids);
    assert!(a == a.clone());
    assert!(a != b);
    assert_eq!(a.id, 0);
    assert_eq!(b.id, 1);
    assert_eq!(ids.next, 2);
}
