use vstd::prelude::*;

use crate::computational_graph::node::{Node, NodeOutput};
use crate::ndarray::ndarray::{DType, NDArray};
use crate::ndarray::ops::{seq_add, seq_div, seq_div_defined, seq_mul, seq_neg, seq_sub};

verus! {

/// Combinator for the elementwise sum of two sub-nodes of one shape.
/// The result cache moves once from empty to filled and then stays;
/// `evals` counts how often the sum was actually computed.
pub struct AddNode<T: DType, L: NodeOutput<T>, R: NodeOutput<T>> {
    pub lhs: L,
    pub rhs: R,
    pub cache: Option<NDArray<T>>,
    pub evals: usize,
}

impl<T: DType, L: NodeOutput<T>, R: NodeOutput<T>> NodeOutput<T> for AddNode<T, L, R> {
    open spec fn wf(&self) -> bool {
        &&& self.lhs.wf()
        &&& self.rhs.wf()
        &&& self.lhs.val_dims() == self.rhs.val_dims()
        &&& match self.cache {
            Some(c) => c.wf() && c.shape.dims@ == self.val_dims() && c.data@ == self.val()
                && self.evals == 1,
            None => self.evals == 0,
        }
    }

    open spec fn val_dims(&self) -> Seq<usize> {
        self.lhs.val_dims()
    }

    open spec fn val(&self) -> Seq<T> {
        seq_add(self.lhs.val(), self.rhs.val())
    }

    open spec fn computed(&self) -> bool {
        self.cache is Some
    }

    proof fn lemma_wf(&self) {
        self.lhs.lemma_wf();
    }

    fn output(&mut self) -> (r: NDArray<T>) {
        match &self.cache {
            Some(c) => c.clone(),
            None => {
                let l = self.lhs.output();
                let r = self.rhs.output();
                let v = l.add(&r);
                self.cache = Some(v.clone());
                self.evals = 1;
                v
            },
        }
    }
}

/// Combinator for the elementwise negation of one sub-node.
pub struct NegNode<T: DType, N: NodeOutput<T>> {
    pub node: N,
    pub cache: Option<NDArray<T>>,
    pub evals: usize,
}

impl<T: DType, N: NodeOutput<T>> NodeOutput<T> for NegNode<T, N> {
    open spec fn wf(&self) -> bool {
        &&& self.node.wf()
        &&& match self.cache {
            Some(c) => c.wf() && c.shape.dims@ == self.val_dims() && c.data@ == self.val()
                && self.evals == 1,
            None => self.evals == 0,
        }
    }

    open spec fn val_dims(&self) -> Seq<usize> {
        self.node.val_dims()
    }

    open spec fn val(&self) -> Seq<T> {
        seq_neg(self.node.val())
    }

    open spec fn computed(&self) -> bool {
        self.cache is Some
    }

    proof fn lemma_wf(&self) {
        self.node.lemma_wf();
    }

    fn output(&mut self) -> (r: NDArray<T>) {
        match &self.cache {
            Some(c) => c.clone(),
            None => {
                let inner = self.node.output();
                let v = inner.neg();
                self.cache = Some(v.clone());
                self.evals = 1;
                v
            },
        }
    }
}

/// Combinator for the elementwise difference of two sub-nodes of one shape.
pub struct SubNode<T: DType, L: NodeOutput<T>, R: NodeOutput<T>> {
    pub lhs: L,
    pub rhs: R,
    pub cache: Option<NDArray<T>>,
    pub evals: usize,
}

impl<T: DType, L: NodeOutput<T>, R: NodeOutput<T>> NodeOutput<T> for SubNode<T, L, R> {
    open spec fn wf(&self) -> bool {
        &&& self.lhs.wf()
        &&& self.rhs.wf()
        &&& self.lhs.val_dims() == self.rhs.val_dims()
        &&& match self.cache {
            Some(c) => c.wf() && c.shape.dims@ == self.val_dims() && c.data@ == self.val()
                && self.evals == 1,
            None => self.evals == 0,
        }
    }

    open spec fn val_dims(&self) -> Seq<usize> {
        self.lhs.val_dims()
    }

    open spec fn val(&self) -> Seq<T> {
        seq_sub(self.lhs.val(), self.rhs.val())
    }

    open spec fn computed(&self) -> bool {
        self.cache is Some
    }

    proof fn lemma_wf(&self) {
        self.lhs.lemma_wf();
    }

    fn output(&mut self) -> (r: NDArray<T>) {
        match &self.cache {
            Some(c) => c.clone(),
            None => {
                let l = self.lhs.output();
                let r = self.rhs.output();
                let v = l.sub(&r);
                self.cache = Some(v.clone());
                self.evals = 1;
                v
            },
        }
    }
}

/// Combinator for the elementwise product of two sub-nodes of one shape.
pub struct MulNode<T: DType, L: NodeOutput<T>, R: NodeOutput<T>> {
    pub lhs: L,
    pub rhs: R,
    pub cache: Option<NDArray<T>>,
    pub evals: usize,
}

impl<T: DType, L: NodeOutput<T>, R: NodeOutput<T>> NodeOutput<T> for MulNode<T, L, R> {
    open spec fn wf(&self) -> bool {
        &&& self.lhs.wf()
        &&& self.rhs.wf()
        &&& self.lhs.val_dims() == self.rhs.val_dims()
        &&& match self.cache {
            Some(c) => c.wf() && c.shape.dims@ == self.val_dims() && c.data@ == self.val()
                && self.evals == 1,
            None => self.evals == 0,
        }
    }

    open spec fn val_dims(&self) -> Seq<usize> {
        self.lhs.val_dims()
    }

    open spec fn val(&self) -> Seq<T> {
        seq_mul(self.lhs.val(), self.rhs.val())
    }

    open spec fn computed(&self) -> bool {
        self.cache is Some
    }

    proof fn lemma_wf(&self) {
        self.lhs.lemma_wf();
    }

    fn output(&mut self) -> (r: NDArray<T>) {
        match &self.cache {
            Some(c) => c.clone(),
            None => {
                let l = self.lhs.output();
                let r = self.rhs.output();
                let v = l.mul(&r);
                self.cache = Some(v.clone());
                self.evals = 1;
                v
            },
        }
    }
}

/// Combinator for the elementwise quotient of two sub-nodes of one shape.
/// Every positional division must be defined when the node is composed.
pub struct DivNode<T: DType, L: NodeOutput<T>, R: NodeOutput<T>> {
    pub lhs: L,
    pub rhs: R,
    pub cache: Option<NDArray<T>>,
    pub evals: usize,
}

impl<T: DType, L: NodeOutput<T>, R: NodeOutput<T>> NodeOutput<T> for DivNode<T, L, R> {
    open spec fn wf(&self) -> bool {
        &&& self.lhs.wf()
        &&& self.rhs.wf()
        &&& self.lhs.val_dims() == self.rhs.val_dims()
        &&& seq_div_defined(self.lhs.val(), self.rhs.val())
        &&& match self.cache {
            Some(c) => c.wf() && c.shape.dims@ == self.val_dims() && c.data@ == self.val()
                && self.evals == 1,
            None => self.evals == 0,
        }
    }

    open spec fn val_dims(&self) -> Seq<usize> {
        self.lhs.val_dims()
    }

    open spec fn val(&self) -> Seq<T> {
        seq_div(self.lhs.val(), self.rhs.val())
    }

    open spec fn computed(&self) -> bool {
        self.cache is Some
    }

    proof fn lemma_wf(&self) {
        self.lhs.lemma_wf();
    }

    fn output(&mut self) -> (r: NDArray<T>) {
        match &self.cache {
            Some(c) => c.clone(),
            None => {
                let l = self.lhs.output();
                let r = self.rhs.output();
                let v = l.div(&r);
                self.cache = Some(v.clone());
                self.evals = 1;
                v
            },
        }
    }
}

impl<K> Node<K> {
    /// Composes the elementwise sum of two nodes of one shape, consuming
    /// both; the new combinator has not computed anything yet.
    pub fn add<T: DType, R: NodeOutput<T>>(self, rhs: Node<R>) -> (r: Node<AddNode<T, K, R>>) where
        K: NodeOutput<T>,

        requires
            self.0.wf(),
            rhs.0.wf(),
            self.0.val_dims() == rhs.0.val_dims(),
        ensures
            r.0.lhs == self.0,
            r.0.rhs == rhs.0,
            r.0.cache is None,
            r.0.evals == 0,
            r.0.wf(),
            !r.0.computed(),
            r.0.val_dims() == self.0.val_dims(),
            r.0.val() == seq_add(self.0.val(), rhs.0.val()),
    {
        Node(AddNode { lhs: self.0, rhs: rhs.0, cache: None, evals: 0 })
    }

    /// Composes the elementwise negation of a node, consuming it; the new
    /// combinator has not computed anything yet.
    pub fn neg<T: DType>(self) -> (r: Node<NegNode<T, K>>) where K: NodeOutput<T>
        requires
            self.0.wf(),
        ensures
            r.0.node == self.0,
            r.0.cache is None,
            r.0.evals == 0,
            r.0.wf(),
            !r.0.computed(),
            r.0.val_dims() == self.0.val_dims(),
            r.0.val() == seq_neg(self.0.val()),
    {
        Node(NegNode { node: self.0, cache: None, evals: 0 })
    }

    /// Composes the elementwise difference of two nodes of one shape,
    /// consuming both; the new combinator has not computed anything yet.
    pub fn sub<T: DType, R: NodeOutput<T>>(self, rhs: Node<R>) -> (r: Node<SubNode<T, K, R>>) where
        K: NodeOutput<T>,

        requires
            self.0.wf(),
            rhs.0.wf(),
            self.0.val_dims() == rhs.0.val_dims(),
        ensures
            r.0.lhs == self.0,
            r.0.rhs == rhs.0,
            r.0.cache is None,
            r.0.evals == 0,
            r.0.wf(),
            !r.0.computed(),
            r.0.val_dims() == self.0.val_dims(),
            r.0.val() == seq_sub(self.0.val(), rhs.0.val()),
    {
        Node(SubNode { lhs: self.0, rhs: rhs.0, cache: None, evals: 0 })
    }

    /// Composes the elementwise product of two nodes of one shape,
    /// consuming both; the new combinator has not computed anything yet.
    pub fn mul<T: DType, R: NodeOutput<T>>(self, rhs: Node<R>) -> (r: Node<MulNode<T, K, R>>) where
        K: NodeOutput<T>,

        requires
            self.0.wf(),
            rhs.0.wf(),
            self.0.val_dims() == rhs.0.val_dims(),
        ensures
            r.0.lhs == self.0,
            r.0.rhs == rhs.0,
            r.0.cache is None,
            r.0.evals == 0,
            r.0.wf(),
            !r.0.computed(),
            r.0.val_dims() == self.0.val_dims(),
            r.0.val() == seq_mul(self.0.val(), rhs.0.val()),
    {
        Node(MulNode { lhs: self.0, rhs: rhs.0, cache: None, evals: 0 })
    }

    /// Composes the elementwise quotient of two nodes of one shape,
    /// consuming both. Shape agreement and definedness of every
    /// positional division are preconditions of composition, not of
    /// evaluation.
    pub fn div<T: DType, R: NodeOutput<T>>(self, rhs: Node<R>) -> (r: Node<DivNode<T, K, R>>) where
        K: NodeOutput<T>,

        requires
            self.0.wf(),
            rhs.0.wf(),
            self.0.val_dims() == rhs.0.val_dims(),
            seq_div_defined(self.0.val(), rhs.0.val()),
        ensures
            r.0.lhs == self.0,
            r.0.rhs == rhs.0,
            r.0.cache is None,
            r.0.evals == 0,
            r.0.wf(),
            !r.0.computed(),
            r.0.val_dims() == self.0.val_dims(),
            r.0.val() == seq_div(self.0.val(), rhs.0.val()),
    {
        Node(DivNode { lhs: self.0, rhs: rhs.0, cache: None, evals: 0 })
    }
}

} // verus!
