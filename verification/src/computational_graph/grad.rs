use vstd::prelude::*;

use crate::computational_graph::node::{Constant, IdCounter, Node, NodeOutput};
use crate::ndarray::ndarray::{DType, NDArray};
use crate::ndarray::shape::{dim_product, lemma_shape_wf_concat_self, Shape};
use crate::ndarray::utils::{eye_seq, fill_seq};

verus! {

/// The gradient query `d(self) / d(target)` against a designated constant
/// leaf, resolved purely by node identity: the same leaf yields an
/// identity-shaped Jacobian, a different leaf an all-zero one. A rank-R
/// node differentiated against a rank-R target of the same shape yields a
/// rank-2R array.
pub trait Grad<T: DType>: NodeOutput<T> {
    /// The identity of the leaf this node resolves the query by.
    spec fn grad_id(&self) -> usize;

    fn grad(&self, target: &Node<Constant<T>>, ids: &mut IdCounter) -> (r: Node<Constant<T>>)
        requires
            self.wf(),
            target.0.wf(),
            self.val_dims() == target.0.val_dims(),
            dim_product(self.val_dims()) * dim_product(self.val_dims()) <= usize::MAX,
            old(ids).next < usize::MAX,
        ensures
            final(ids).next == old(ids).next + 1,
            r.0.id == old(ids).next,
            r.0.wf(),
            r.0.val_dims() == self.val_dims() + self.val_dims(),
            self.grad_id() == target.0.id ==> r.0.val() == eye_seq::<T>(
                dim_product(self.val_dims()),
            ),
            self.grad_id() != target.0.id ==> r.0.val() == fill_seq::<T>(
                dim_product(self.val_dims()) * dim_product(self.val_dims()),
                T::spec_zero(),
            ),
    ;
}

impl<T: DType> Grad<T> for Constant<T> {
    open spec fn grad_id(&self) -> usize {
        self.id
    }

    fn grad(&self, target: &Node<Constant<T>>, ids: &mut IdCounter) -> (r: Node<Constant<T>>) {
        let n = self.array.shape.n_elements();
        let ghost d = self.array.shape.dims@;
        let rank = self.array.shape.dims.len();
        let mut dims: Vec<usize> = Vec::new();
        let mut k: usize = 0;
        while k < rank
            invariant
                k <= rank,
                rank == d.len(),
                d == self.array.shape.dims@,
                dims@ == d.take(k as int),
            decreases rank - k,
        {
            dims.push(self.array.shape.dims[k]);
            proof {
                assert(dims@ =~= d.take(k as int + 1));
            }
            k = k + 1;
        }
        proof {
            assert(d.take(rank as int) =~= d);
        }
        let mut k2: usize = 0;
        while k2 < rank
            invariant
                k2 <= rank,
                rank == d.len(),
                d == self.array.shape.dims@,
                dims@ == d + d.take(k2 as int),
            decreases rank - k2,
        {
            dims.push(self.array.shape.dims[k2]);
            proof {
                assert(dims@ =~= d + d.take(k2 as int + 1));
            }
            k2 = k2 + 1;
        }
        proof {
            assert(d + d.take(rank as int) =~= d + d);
            lemma_shape_wf_concat_self(d);
        }
        let gshape = Shape { dims };
        let grad_array = if self.id == target.0.id {
            let e = NDArray::<T>::eye(n);
            NDArray { shape: gshape, data: e.data }
        } else {
            NDArray::zeros(gshape)
        };
        Node(Constant::new(grad_array, ids))
    }
}

impl<T: DType, K: NodeOutput<T> + Grad<T>> Grad<T> for Node<K> {
    open spec fn grad_id(&self) -> usize {
        self.0.grad_id()
    }

    fn grad(&self, target: &Node<Constant<T>>, ids: &mut IdCounter) -> (r: Node<Constant<T>>) {
        self.0.grad(target, ids)
    }
}

} // verus!
