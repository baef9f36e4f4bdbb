use vstd::prelude::*;

use crate::ndarray::ndarray::{DType, NDArray};
use crate::ndarray::shape::{dim_product, lemma_shape_wf_pair, rank2_at, Shape};

verus! {

/// The flat row-major buffer of the `n x n` identity matrix: one on the
/// diagonal, zero elsewhere.
pub open spec fn eye_seq<T: DType>(n: int) -> Seq<T> {
    Seq::new((n * n) as nat, |p: int| if p / n == p % n {
            T::spec_one()
        } else {
            T::spec_zero()
        })
}

/// A buffer of `len` copies of one value.
pub open spec fn fill_seq<T: DType>(len: int, v: T) -> Seq<T> {
    Seq::new(len as nat, |p: int| v)
}

impl<T: DType> NDArray<T> {
    /// The `n x n` identity: `eye(n)[i, j]` is one exactly when `i == j`,
    /// and zero otherwise.
    pub fn eye(n: usize) -> (r: NDArray<T>)
        requires
            n * n <= usize::MAX,
        ensures
            r.wf(),
            r.dims() == seq![n, n],
            r.data@ == eye_seq::<T>(n as int),
            forall|i: int, j: int|
                0 <= i < n && 0 <= j < n ==> #[trigger] rank2_at(r.data@, n as int, i, j) == (
                if i == j {
                    T::spec_one()
                } else {
                    T::spec_zero()
                }),
    {
        let mut data: Vec<T> = Vec::new();
        let mut i: usize = 0;
        while i < n
            invariant
                n * n <= usize::MAX,
                i <= n,
                data@.len() == i * n,
                forall|p: int|
                    0 <= p < data@.len() ==> data@[p] == (if p / (n as int) == p % (n as int) {
                        T::spec_one()
                    } else {
                        T::spec_zero()
                    }),
            decreases n - i,
        {
            let mut j: usize = 0;
            while j < n
                invariant
                    n * n <= usize::MAX,
                    i < n,
                    j <= n,
                    data@.len() == i * n + j,
                    forall|p: int|
                        0 <= p < data@.len() ==> data@[p] == (if p / (n as int) == p % (n as int) {
                            T::spec_one()
                        } else {
                            T::spec_zero()
                        }),
                decreases n - j,
            {
                proof {
                    assert(i * (n as int) + j < n * n) by (nonlinear_arith)
                        requires
                            0 <= i < n,
                            0 <= j < n,
                    ;
                    vstd::arithmetic::div_mod::lemma_fundamental_div_mod_converse(
                        i * (n as int) + j,
                        n as int,
                        i as int,
                        j as int,
                    );
                }
                if i == j {
                    data.push(T::one());
                } else {
                    data.push(T::zero());
                }
                j = j + 1;
            }
            proof {
                assert(i * (n as int) + n == (i + 1) * (n as int)) by (nonlinear_arith);
            }
            i = i + 1;
        }
        let mut dims: Vec<usize> = Vec::new();
        dims.push(n);
        dims.push(n);
        let r = NDArray { shape: Shape { dims }, data };
        proof {
            assert(r.shape.dims@ =~= seq![n, n]);
            lemma_shape_wf_pair(n, n);
            assert(r.data@ =~= eye_seq::<T>(n as int));
            assert forall|i: int, j: int| 0 <= i < n && 0 <= j < n implies #[trigger] rank2_at(
                r.data@,
                n as int,
                i,
                j,
            ) == (if i == j {
                T::spec_one()
            } else {
                T::spec_zero()
            }) by {
                assert(i * (n as int) + j < n * n) by (nonlinear_arith)
                    requires
                        0 <= i < n,
                        0 <= j < n,
                ;
                assert(0 <= i * (n as int)) by (nonlinear_arith)
                    requires
                        0 <= i,
                        0 <= n,
                ;
                vstd::arithmetic::div_mod::lemma_fundamental_div_mod_converse(
                    i * (n as int) + j,
                    n as int,
                    i,
                    j,
                );
            }
        }
        r
    }

    /// An array of the given shape filled with the additive identity.
    pub fn zeros(shape: Shape) -> (r: NDArray<T>)
        requires
            shape.wf(),
        ensures
            r.wf(),
            r.shape.dims@ == shape.dims@,
            r.data@ == fill_seq(dim_product(shape.dims@), T::spec_zero()),
    {
        let n = shape.n_elements();
        let mut data: Vec<T> = Vec::new();
        let mut k: usize = 0;
        while k < n
            invariant
                k <= n,
                data@.len() == k,
                forall|q: int| 0 <= q < k ==> data@[q] == T::spec_zero(),
            decreases n - k,
        {
            data.push(T::zero());
            k = k + 1;
        }
        let r = NDArray { shape, data };
        proof {
            assert(r.data@ =~= fill_seq(dim_product(r.shape.dims@), T::spec_zero()));
        }
        r
    }

    /// An array of the given shape filled with the multiplicative identity.
    pub fn ones(shape: Shape) -> (r: NDArray<T>)
        requires
            shape.wf(),
        ensures
            r.wf(),
            r.shape.dims@ == shape.dims@,
            r.data@ == fill_seq(dim_product(shape.dims@), T::spec_one()),
    {
        let n = shape.n_elements();
        let mut data: Vec<T> = Vec::new();
        let mut k: usize = 0;
        while k < n
            invariant
                k <= n,
                data@.len() == k,
                forall|q: int| 0 <= q < k ==> data@[q] == T::spec_one(),
            decreases n - k,
        {
            data.push(T::one());
            k = k + 1;
        }
        let r = NDArray { shape, data };
        proof {
            assert(r.data@ =~= fill_seq(dim_product(r.shape.dims@), T::spec_one()));
        }
        r
    }
}

} // verus!
