use vstd::prelude::*;

use crate::ndarray::ndarray::{DType, NDArray};
use crate::ndarray::shape::{
    dim_product, lemma_dim_product_single, lemma_shape_wf_pair, rank2_at, Shape,
};

verus! {

/// Pointwise sum of two equally long element sequences.
pub open spec fn seq_add<T: DType>(a: Seq<T>, b: Seq<T>) -> Seq<T> {
    Seq::new(a.len(), |k: int| a[k].spec_add(b[k]))
}

/// Pointwise difference of two equally long element sequences.
pub open spec fn seq_sub<T: DType>(a: Seq<T>, b: Seq<T>) -> Seq<T> {
    Seq::new(a.len(), |k: int| a[k].spec_sub(b[k]))
}

/// Pointwise product of two equally long element sequences.
pub open spec fn seq_mul<T: DType>(a: Seq<T>, b: Seq<T>) -> Seq<T> {
    Seq::new(a.len(), |k: int| a[k].spec_mul(b[k]))
}

/// Pointwise quotient of two equally long element sequences.
pub open spec fn seq_div<T: DType>(a: Seq<T>, b: Seq<T>) -> Seq<T> {
    Seq::new(a.len(), |k: int| a[k].spec_div(b[k]))
}

/// Pointwise negation of an element sequence.
pub open spec fn seq_neg<T: DType>(a: Seq<T>) -> Seq<T> {
    Seq::new(a.len(), |k: int| a[k].spec_neg())
}

/// Every positional pair of the two sequences is a defined division.
pub open spec fn seq_div_defined<T: DType>(a: Seq<T>, b: Seq<T>) -> bool {
    forall|k: int| 0 <= k < a.len() ==> #[trigger] a[k].div_defined(b[k])
}

/// Double negation leaves an element sequence unchanged, because the
/// element type's own negation is involutive.
pub proof fn lemma_seq_neg_involutive<T: DType>(a: Seq<T>)
    ensures
        seq_neg(seq_neg(a)) == a,
{
    assert forall|k: int| 0 <= k < a.len() implies seq_neg(seq_neg(a))[k] == a[k] by {
        a[k].lemma_neg_involutive();
    }
    assert(seq_neg(seq_neg(a)) =~= a);
}

/// Applies `op` positionally to one buffer, producing an array of the
/// same shape.
pub fn unary_op<T: DType, F: Fn(T) -> T>(a: &NDArray<T>, op: F) -> (r: NDArray<T>)
    requires
        a.wf(),
        forall|k: int| 0 <= k < a.data@.len() ==> call_requires(op, (a.data@[k],)),
    ensures
        r.wf(),
        r.shape.dims@ == a.shape.dims@,
        r.data@.len() == a.data@.len(),
        forall|k: int|
            0 <= k < a.data@.len() ==> call_ensures(op, (a.data@[k],), #[trigger] r.data@[k]),
{
    let n = a.shape.n_elements();
    let mut data: Vec<T> = Vec::new();
    let mut k: usize = 0;
    while k < n
        invariant
            a.wf(),
            k <= n,
            n == a.data@.len(),
            data@.len() == k,
            forall|q: int| 0 <= q < a.data@.len() ==> call_requires(op, (a.data@[q],)),
            forall|q: int|
                0 <= q < k ==> call_ensures(op, (a.data@[q],), #[trigger] data@[q]),
        decreases n - k,
    {
        data.push(op(a.data[k]));
        k = k + 1;
    }
    NDArray { shape: a.shape.clone(), data }
}

/// Applies `op` positionally across two buffers of the same shape,
/// producing an array of that shape.
pub fn binary_op<T: DType, F: Fn(T, T) -> T>(a: &NDArray<T>, b: &NDArray<T>, op: F) -> (r:
    NDArray<T>)
    requires
        a.wf(),
        b.wf(),
        a.shape.dims@ == b.shape.dims@,
        forall|k: int|
            0 <= k < a.data@.len() ==> call_requires(op, (a.data@[k], b.data@[k])),
    ensures
        r.wf(),
        r.shape.dims@ == a.shape.dims@,
        r.data@.len() == a.data@.len(),
        forall|k: int|
            0 <= k < a.data@.len() ==> call_ensures(
                op,
                (a.data@[k], b.data@[k]),
                #[trigger] r.data@[k],
            ),
{
    let n = a.shape.n_elements();
    let mut data: Vec<T> = Vec::new();
    let mut k: usize = 0;
    while k < n
        invariant
            a.wf(),
            b.wf(),
            a.shape.dims@ == b.shape.dims@,
            k <= n,
            n == a.data@.len(),
            n == b.data@.len(),
            data@.len() == k,
            forall|q: int|
                0 <= q < a.data@.len() ==> call_requires(op, (a.data@[q], b.data@[q])),
            forall|q: int|
                0 <= q < k ==> call_ensures(op, (a.data@[q], b.data@[q]), #[trigger] data@[q]),
        decreases n - k,
    {
        data.push(op(a.data[k], b.data[k]));
        k = k + 1;
    }
    NDArray { shape: a.shape.clone(), data }
}

impl<T: DType> NDArray<T> {
    /// Elementwise sum: `(a + b)[i] == a[i] + b[i]` at every position.
    pub fn add(&self, rhs: &NDArray<T>) -> (r: NDArray<T>)
        requires
            self.wf(),
            rhs.wf(),
            self.shape.dims@ == rhs.shape.dims@,
        ensures
            r.wf(),
            r.shape.dims@ == self.shape.dims@,
            r.data@ == seq_add(self.data@, rhs.data@),
    {
        let r = binary_op(
            self,
            rhs,
            |x: T, y: T| -> (z: T)
                ensures
                    z == x.spec_add(y),
                { x.add(y) }
        );
        proof {
            assert(r.data@ =~= seq_add(self.data@, rhs.data@));
        }
        r
    }

    /// Elementwise difference: `(a - b)[i] == a[i] - b[i]` at every position.
    pub fn sub(&self, rhs: &NDArray<T>) -> (r: NDArray<T>)
        requires
            self.wf(),
            rhs.wf(),
            self.shape.dims@ == rhs.shape.dims@,
        ensures
            r.wf(),
            r.shape.dims@ == self.shape.dims@,
            r.data@ == seq_sub(self.data@, rhs.data@),
    {
        let r = binary_op(
            self,
            rhs,
            |x: T, y: T| -> (z: T)
                ensures
                    z == x.spec_sub(y),
                { x.sub(y) }
        );
        proof {
            assert(r.data@ =~= seq_sub(self.data@, rhs.data@));
        }
        r
    }

    /// Elementwise product: `(a * b)[i] == a[i] * b[i]` at every position.
    pub fn mul(&self, rhs: &NDArray<T>) -> (r: NDArray<T>)
        requires
            self.wf(),
            rhs.wf(),
            self.shape.dims@ == rhs.shape.dims@,
        ensures
            r.wf(),
            r.shape.dims@ == self.shape.dims@,
            r.data@ == seq_mul(self.data@, rhs.data@),
    {
        let r = binary_op(
            self,
            rhs,
            |x: T, y: T| -> (z: T)
                ensures
                    z == x.spec_mul(y),
                { x.mul(y) }
        );
        proof {
            assert(r.data@ =~= seq_mul(self.data@, rhs.data@));
        }
        r
    }

    /// Elementwise quotient: `(a / b)[i] == a[i] / b[i]` at every position.
    pub fn div(&self, rhs: &NDArray<T>) -> (r: NDArray<T>)
        requires
            self.wf(),
            rhs.wf(),
            self.shape.dims@ == rhs.shape.dims@,
            seq_div_defined(self.data@, rhs.data@),
        ensures
            r.wf(),
            r.shape.dims@ == self.shape.dims@,
            r.data@ == seq_div(self.data@, rhs.data@),
    {
        let r = binary_op(
            self,
            rhs,
            |x: T, y: T| -> (z: T)
                requires
                    x.div_defined(y),
                ensures
                    z == x.spec_div(y),
                { x.div(y) }
        );
        proof {
            assert(r.data@ =~= seq_div(self.data@, rhs.data@));
        }
        r
    }

    /// Elementwise negation: `(-a)[i] == -a[i]` at every position.
    pub fn neg(&self) -> (r: NDArray<T>)
        requires
            self.wf(),
        ensures
            r.wf(),
            r.shape.dims@ == self.shape.dims@,
            r.data@ == seq_neg(self.data@),
    {
        let r = unary_op(
            self,
            |x: T| -> (z: T)
                ensures
                    z == x.spec_neg(),
                { x.neg() }
        );
        proof {
            assert(r.data@ =~= seq_neg(self.data@));
        }
        r
    }

    /// Adds one scalar to every element.
    pub fn add_scalar(&self, s: T) -> (r: NDArray<T>)
        requires
            self.wf(),
        ensures
            r.wf(),
            r.shape.dims@ == self.shape.dims@,
            r.data@.len() == self.data@.len(),
            forall|k: int|
                0 <= k < self.data@.len() ==> r.data@[k] == self.data@[k].spec_add(s),
    {
        unary_op(
            self,
            |x: T| -> (z: T)
                ensures
                    z == x.spec_add(s),
                { x.add(s) }
        )
    }

    /// Subtracts one scalar from every element.
    pub fn sub_scalar(&self, s: T) -> (r: NDArray<T>)
        requires
            self.wf(),
        ensures
            r.wf(),
            r.shape.dims@ == self.shape.dims@,
            r.data@.len() == self.data@.len(),
            forall|k: int|
                0 <= k < self.data@.len() ==> r.data@[k] == self.data@[k].spec_sub(s),
    {
        unary_op(
            self,
            |x: T| -> (z: T)
                ensures
                    z == x.spec_sub(s),
                { x.sub(s) }
        )
    }

    /// Multiplies every element by one scalar.
    pub fn mul_scalar(&self, s: T) -> (r: NDArray<T>)
        requires
            self.wf(),
        ensures
            r.wf(),
            r.shape.dims@ == self.shape.dims@,
            r.data@.len() == self.data@.len(),
            forall|k: int|
                0 <= k < self.data@.len() ==> r.data@[k] == self.data@[k].spec_mul(s),
    {
        unary_op(
            self,
            |x: T| -> (z: T)
                ensures
                    z == x.spec_mul(s),
                { x.mul(s) }
        )
    }

    /// Divides every element by one scalar.
    pub fn div_scalar(&self, s: T) -> (r: NDArray<T>)
        requires
            self.wf(),
            forall|k: int| 0 <= k < self.data@.len() ==> #[trigger] self.data@[k].div_defined(s),
        ensures
            r.wf(),
            r.shape.dims@ == self.shape.dims@,
            r.data@.len() == self.data@.len(),
            forall|k: int|
                0 <= k < self.data@.len() ==> r.data@[k] == self.data@[k].spec_div(s),
    {
        unary_op(
            self,
            |x: T| -> (z: T)
                requires
                    x.div_defined(s),
                ensures
                    z == x.spec_div(s),
                { x.div(s) }
        )
    }
}

/// The dot product of two equally long sequences, folded left to right
/// from the element type's zero.
pub open spec fn dot<T: DType>(a: Seq<T>, b: Seq<T>) -> T
    decreases a.len(),
{
    if a.len() == 0 {
        T::spec_zero()
    } else {
        dot(a.drop_last(), b.drop_last()).spec_add(a.last().spec_mul(b.last()))
    }
}

/// Row `i` of a row-major `? x kk` matrix buffer.
pub open spec fn row_seq<T: DType>(data: Seq<T>, kk: int, i: int) -> Seq<T> {
    Seq::new(kk as nat, |k: int| data[i * kk + k])
}

/// Column `j` of a row-major `kk x n` matrix buffer.
pub open spec fn col_seq<T: DType>(data: Seq<T>, n: int, kk: int, j: int) -> Seq<T> {
    Seq::new(kk as nat, |k: int| data[k * n + j])
}

/// The product of a rank-2 shape's extents is its element count.
pub proof fn lemma_dim_product_rank2(dims: Seq<usize>)
    requires
        dims.len() == 2,
    ensures
        dim_product(dims) == dims[0] * dims[1],
{
    assert(dims.skip(1) =~= seq![dims[1]]);
    lemma_dim_product_single(dims[1]);
    assert(dim_product(dims) == dims[0] * dim_product(dims.skip(1)));
}

/// Matrix multiplication by dot-product contraction over the shared inner
/// dimension: `r[i, j] == sum over k of lhs[i, k] * rhs[k, j]`.
pub fn mat_mul<T: DType>(lhs: &NDArray<T>, rhs: &NDArray<T>) -> (r: NDArray<T>)
    requires
        lhs.wf(),
        rhs.wf(),
        lhs.dims().len() == 2,
        rhs.dims().len() == 2,
        lhs.dims()[1] == rhs.dims()[0],
        lhs.dims()[0] * rhs.dims()[1] <= usize::MAX,
    ensures
        r.wf(),
        r.dims() == seq![lhs.dims()[0], rhs.dims()[1]],
        forall|i: int, j: int|
            0 <= i < lhs.dims()[0] && 0 <= j < rhs.dims()[1] ==> #[trigger] rank2_at(
                r.data@,
                rhs.dims()[1] as int,
                i,
                j,
            ) == dot(
                row_seq(lhs.data@, lhs.dims()[1] as int, i),
                col_seq(rhs.data@, rhs.dims()[1] as int, lhs.dims()[1] as int, j),
            ),
{
    let m = lhs.shape.dims[0];
    let kk = lhs.shape.dims[1];
    let n = rhs.shape.dims[1];
    proof {
        lemma_dim_product_rank2(lhs.dims());
        lemma_dim_product_rank2(rhs.dims());
        assert(lhs.shape.dims@.skip(0) =~= lhs.shape.dims@);
        assert(rhs.shape.dims@.skip(0) =~= rhs.shape.dims@);
        assert(m * kk <= usize::MAX);
        assert(kk * n <= usize::MAX);
    }
    let mut data: Vec<T> = Vec::new();
    let mut i: usize = 0;
    while i < m
        invariant
            lhs.wf(),
            rhs.wf(),
            lhs.dims().len() == 2,
            rhs.dims().len() == 2,
            m == lhs.dims()[0],
            kk == lhs.dims()[1],
            kk == rhs.dims()[0],
            n == rhs.dims()[1],
            m * n <= usize::MAX,
            m * kk <= usize::MAX,
            kk * n <= usize::MAX,
            lhs.data@.len() == m * kk,
            rhs.data@.len() == kk * n,
            i <= m,
            data@.len() == i * n,
            forall|p: int|
                0 <= p < data@.len() ==> data@[p] == dot(
                    row_seq(lhs.data@, kk as int, p / (n as int)),
                    col_seq(rhs.data@, n as int, kk as int, p % (n as int)),
                ),
        decreases m - i,
    {
        let mut j: usize = 0;
        while j < n
            invariant
                lhs.wf(),
                rhs.wf(),
                lhs.dims().len() == 2,
                rhs.dims().len() == 2,
                m == lhs.dims()[0],
                kk == lhs.dims()[1],
                kk == rhs.dims()[0],
                n == rhs.dims()[1],
                m * n <= usize::MAX,
                m * kk <= usize::MAX,
                kk * n <= usize::MAX,
                lhs.data@.len() == m * kk,
                rhs.data@.len() == kk * n,
                i < m,
                j <= n,
                data@.len() == i * n + j,
                forall|p: int|
                    0 <= p < data@.len() ==> data@[p] == dot(
                        row_seq(lhs.data@, kk as int, p / (n as int)),
                        col_seq(rhs.data@, n as int, kk as int, p % (n as int)),
                    ),
            decreases n - j,
        {
            let ghost row = row_seq::<T>(lhs.data@, kk as int, i as int);
            let ghost col = col_seq::<T>(rhs.data@, n as int, kk as int, j as int);
            let mut acc = T::zero();
            let mut k: usize = 0;
            proof {
                assert(row.take(0) =~= Seq::<T>::empty());
                assert(col.take(0) =~= Seq::<T>::empty());
            }
            while k < kk
                invariant
                    lhs.wf(),
                    rhs.wf(),
                    lhs.dims().len() == 2,
                    rhs.dims().len() == 2,
                    m == lhs.dims()[0],
                    kk == lhs.dims()[1],
                    kk == rhs.dims()[0],
                    n == rhs.dims()[1],
                    m * kk <= usize::MAX,
                    kk * n <= usize::MAX,
                    lhs.data@.len() == m * kk,
                    rhs.data@.len() == kk * n,
                    i < m,
                    j < n,
                    k <= kk,
                    row == row_seq::<T>(lhs.data@, kk as int, i as int),
                    col == col_seq::<T>(rhs.data@, n as int, kk as int, j as int),
                    acc == dot(row.take(k as int), col.take(k as int)),
                decreases kk - k,
            {
                proof {
                    assert(i * (kk as int) + k < m * kk) by (nonlinear_arith)
                        requires
                            0 <= i < m,
                            0 <= k < kk,
                    ;
                    assert(0 <= i * (kk as int) <= m * kk) by (nonlinear_arith)
                        requires
                            0 <= i <= m,
                            0 <= kk,
                    ;
                    assert(k * (n as int) + j < kk * n) by (nonlinear_arith)
                        requires
                            0 <= k < kk,
                            0 <= j < n,
                    ;
                    assert(0 <= k * (n as int) <= kk * n) by (nonlinear_arith)
                        requires
                            0 <= k <= kk,
                            0 <= n,
                    ;
                }
                let a = lhs.data[i * kk + k];
                let b = rhs.data[k * n + j];
                acc = acc.add(a.mul(b));
                proof {
                    assert(row.take(k as int + 1).drop_last() =~= row.take(k as int));
                    assert(col.take(k as int + 1).drop_last() =~= col.take(k as int));
                    assert(row.take(k as int + 1).last() == row[k as int]);
                    assert(col.take(k as int + 1).last() == col[k as int]);
                }
                k = k + 1;
            }
            proof {
                assert(row.take(kk as int) =~= row);
                assert(col.take(kk as int) =~= col);
                assert(i * (n as int) + j < m * n) by (nonlinear_arith)
                    requires
                        0 <= i < m,
                        0 <= j < n,
                ;
                vstd::arithmetic::div_mod::lemma_fundamental_div_mod_converse(
                    i * (n as int) + j,
                    n as int,
                    i as int,
                    j as int,
                );
            }
            data.push(acc);
            j = j + 1;
        }
        proof {
            assert(i * (n as int) + n == (i + 1) * (n as int)) by (nonlinear_arith);
        }
        i = i + 1;
    }
    let mut dims: Vec<usize> = Vec::new();
    dims.push(m);
    dims.push(n);
    let r = NDArray { shape: Shape { dims }, data };
    proof {
        assert(r.shape.dims@ =~= seq![m, n]);
        lemma_shape_wf_pair(m, n);
        assert forall|i: int, j: int| 0 <= i < m && 0 <= j < n implies #[trigger] rank2_at(
            r.data@,
            n as int,
            i,
            j,
        ) == dot(
            row_seq(lhs.data@, kk as int, i),
            col_seq(rhs.data@, n as int, kk as int, j),
        ) by {
            assert(i * (n as int) + j < m * n) by (nonlinear_arith)
                requires
                    0 <= i < m,
                    0 <= j < n,
            ;
            assert(0 <= i * (n as int)) by (nonlinear_arith)
                requires
                    0 <= i,
                    0 <= n,
            ;
            vstd::arithmetic::div_mod::lemma_fundamental_div_mod_converse(
                i * (n as int) + j,
                n as int,
                i,
                j,
            );
        }
    }
    r
}

} // verus!
