use vstd::prelude::*;

use crate::ndarray::ndarray::{DType, NDArray};
use crate::ndarray::shape::{dim_product, shape_dims_wf};

verus! {

/// Hands out node identities: monotonically assigned, never reused by one
/// counter, compared to decide whether two leaves are the same node.
pub struct IdCounter {
    pub next: usize,
}

impl IdCounter {
    pub fn new() -> (c: IdCounter)
        ensures
            c.next == 0,
    {
        IdCounter { next: 0 }
    }

    /// The next identity; the counter moves past it and never hands it
    /// out again.
    pub fn fresh(&mut self) -> (id: usize)
        requires
            old(self).next < usize::MAX,
        ensures
            id == old(self).next,
            final(self).next == old(self).next + 1,
    {
        let id = self.next;
        self.next = self.next + 1;
        id
    }
}

/// The capability of producing an output array on demand, caching the
/// result after the first computation.
pub trait NodeOutput<T: DType>: Sized {
    /// Structural soundness: children are sound and agree in shape, and a
    /// filled cache holds exactly the node's value.
    spec fn wf(&self) -> bool;

    /// The shape of the array this node evaluates to.
    spec fn val_dims(&self) -> Seq<usize>;

    /// The flat row-major buffer this node evaluates to.
    spec fn val(&self) -> Seq<T>;

    /// Whether the node's result is available without computing anything.
    spec fn computed(&self) -> bool;

    /// A sound node's value fills its shape exactly.
    proof fn lemma_wf(&self)
        requires
            self.wf(),
        ensures
            self.val().len() == dim_product(self.val_dims()),
            shape_dims_wf(self.val_dims()),
    ;

    /// Produces the node's array. Evaluation never changes what the node
    /// stands for, leaves it computed, and an already computed node is
    /// returned as it is, without recomputation.
    fn output(&mut self) -> (r: NDArray<T>)
        requires
            old(self).wf(),
        ensures
            final(self).wf(),
            final(self).val_dims() == old(self).val_dims(),
            final(self).val() == old(self).val(),
            final(self).computed(),
            old(self).computed() ==> *final(self) == *old(self),
            r.wf(),
            r.shape.dims@ == old(self).val_dims(),
            r.data@ == old(self).val(),
    ;
}

/// A leaf of the computational graph: one owned array and one
/// process-unique identity, immutable after construction.
pub struct Constant<T: DType> {
    pub id: usize,
    pub array: NDArray<T>,
}

impl<T: DType> Constant<T> {
    /// Wraps an array as a leaf carrying the counter's next identity.
    pub fn new(array: NDArray<T>, ids: &mut IdCounter) -> (c: Constant<T>)
        requires
            array.wf(),
            old(ids).next < usize::MAX,
        ensures
            c.id == old(ids).next,
            final(ids).next == old(ids).next + 1,
            c.array == array,
    {
        let id = ids.fresh();
        Constant { id, array }
    }
}

impl<T: DType> PartialEq for Constant<T> {
    /// Leaves are equal when they are the same node: equality compares
    /// the assigned identity, never the array contents.
    fn eq(&self, other: &Constant<T>) -> (r: bool) {
        self.id == other.id
    }
}

impl<T: DType> vstd::std_specs::cmp::PartialEqSpecImpl for Constant<T> {
    open spec fn obeys_eq_spec() -> bool {
        true
    }

    open spec fn eq_spec(&self, other: &Constant<T>) -> bool {
        self.id == other.id
    }
}

impl<T: DType> Clone for Constant<T> {
    /// A clone is the same node: it keeps the identity along with the
    /// array contents.
    fn clone(&self) -> (r: Self)
        ensures
            r.id == self.id,
            r.array.shape.dims@ == self.array.shape.dims@,
            r.array.data@ == self.array.data@,
    {
        Constant { id: self.id, array: self.array.clone() }
    }
}

impl<T: DType> NodeOutput<T> for Constant<T> {
    open spec fn wf(&self) -> bool {
        self.array.wf()
    }

    open spec fn val_dims(&self) -> Seq<usize> {
        self.array.shape.dims@
    }

    open spec fn val(&self) -> Seq<T> {
        self.array.data@
    }

    open spec fn computed(&self) -> bool {
        true
    }

    proof fn lemma_wf(&self) {
    }

    fn output(&mut self) -> (r: NDArray<T>) {
        self.array.clone()
    }
}

/// The uniform wrapper over leaves and combinators, so composition never
/// distinguishes what kind of node it holds.
pub struct Node<K>(pub K);

impl<K: Clone> Clone for Node<K> {
    fn clone(&self) -> Node<K> {
        Node(self.0.clone())
    }
}

impl<T: DType, K: NodeOutput<T>> NodeOutput<T> for Node<K> {
    open spec fn wf(&self) -> bool {
        self.0.wf()
    }

    open spec fn val_dims(&self) -> Seq<usize> {
        self.0.val_dims()
    }

    open spec fn val(&self) -> Seq<T> {
        self.0.val()
    }

    open spec fn computed(&self) -> bool {
        self.0.computed()
    }

    proof fn lemma_wf(&self) {
        self.0.lemma_wf();
    }

    fn output(&mut self) -> (r: NDArray<T>) {
        self.0.output()
    }
}

} // verus!
