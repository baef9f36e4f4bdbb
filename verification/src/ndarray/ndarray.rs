use vstd::arithmetic::div_mod::{
    lemma_div_is_ordered_by_denominator, lemma_div_nonincreasing, lemma_div_pos_is_pos,
};
use vstd::prelude::*;

use crate::ndarray::shape::{
    dim_product, index_in_bounds, lemma_dim_product_empty, lemma_dim_product_single,
    lemma_linear_index_bound, lemma_shape_wf_pair, linear_index, Const, Dim, Rank0, Rank1, Rank2,
    Shape,
};

verus! {

/// The contract an element type must satisfy to live in an array: value-copy
/// semantics, an additive and a multiplicative identity, and closed
/// arithmetic operators. Each executable operator is pinned to a spec-level
/// twin, so array contracts can speak about element arithmetic exactly.
pub trait DType: Sized + Copy {
    spec fn spec_zero() -> Self;

    spec fn spec_one() -> Self;

    spec fn spec_add(self, other: Self) -> Self;

    spec fn spec_sub(self, other: Self) -> Self;

    spec fn spec_mul(self, other: Self) -> Self;

    spec fn spec_neg(self) -> Self;

    /// The divisions this element type defines; dividing outside of them
    /// would abort, so they are excluded by precondition.
    spec fn div_defined(self, other: Self) -> bool;

    spec fn spec_div(self, other: Self) -> Self;

    fn zero() -> (r: Self)
        ensures
            r == Self::spec_zero(),
    ;

    fn one() -> (r: Self)
        ensures
            r == Self::spec_one(),
    ;

    fn add(self, other: Self) -> (r: Self)
        ensures
            r == self.spec_add(other),
    ;

    fn sub(self, other: Self) -> (r: Self)
        ensures
            r == self.spec_sub(other),
    ;

    fn mul(self, other: Self) -> (r: Self)
        ensures
            r == self.spec_mul(other),
    ;

    fn div(self, other: Self) -> (r: Self)
        requires
            self.div_defined(other),
        ensures
            r == self.spec_div(other),
    ;

    fn neg(self) -> (r: Self)
        ensures
            r == self.spec_neg(),
    ;

    /// Negation must be involutive; the double-negation law on arrays
    /// rests on this obligation.
    proof fn lemma_neg_involutive(self)
        ensures
            self.spec_neg().spec_neg() == self,
    ;
}

/// Truncated (round-toward-zero) integer division, the semantics of `/` on
/// the machine integer types.
pub open spec fn trunc_div(x: int, d: int) -> int {
    if x == 0 {
        0
    } else if x > 0 && d > 0 {
        x / d
    } else if x < 0 && d < 0 {
        (x * -1) / (d * -1)
    } else if x < 0 {
        ((x * -1) / d) * -1
    } else {
        (x / (d * -1)) * -1
    }
}

impl DType for i32 {
    open spec fn spec_zero() -> i32 {
        0i32
    }

    open spec fn spec_one() -> i32 {
        1i32
    }

    open spec fn spec_add(self, other: i32) -> i32 {
        vstd::wrapping::i32_specs::wrapping_add(self, other)
    }

    open spec fn spec_sub(self, other: i32) -> i32 {
        vstd::wrapping::i32_specs::wrapping_sub(self, other)
    }

    open spec fn spec_mul(self, other: i32) -> i32 {
        vstd::wrapping::i32_specs::wrapping_mul(self, other)
    }

    open spec fn spec_neg(self) -> i32 {
        vstd::wrapping::i32_specs::wrapping_sub(0i32, self)
    }

    open spec fn div_defined(self, other: i32) -> bool {
        other != 0 && !(self == i32::MIN && other == -1)
    }

    open spec fn spec_div(self, other: i32) -> i32 {
        trunc_div(self as int, other as int) as i32
    }

    fn zero() -> i32 {
        0
    }

    fn one() -> i32 {
        1
    }

    fn add(self, other: i32) -> i32 {
        self.wrapping_add(other)
    }

    fn sub(self, other: i32) -> i32 {
        self.wrapping_sub(other)
    }

    fn mul(self, other: i32) -> i32 {
        self.wrapping_mul(other)
    }

    fn div(self, other: i32) -> (r: i32) {
        proof {
            lemma_i32_trunc_div_fits(self, other);
        }
        match self.checked_div(other) {
            Some(v) => v,
            None => 0,
        }
    }

    fn neg(self) -> i32 {
        0i32.wrapping_sub(self)
    }

    proof fn lemma_neg_involutive(self) {
    }
}

/// Truncated division of defined `i32` operands stays in the `i32` range.
proof fn lemma_i32_trunc_div_fits(x: i32, d: i32)
    requires
        x.div_defined(d),
    ensures
        i32::MIN <= trunc_div(x as int, d as int) <= i32::MAX,
{
    let xi = x as int;
    let di = d as int;
    if xi == 0 {
    } else if xi > 0 && di > 0 {
        lemma_div_pos_is_pos(xi, di);
        lemma_div_nonincreasing(xi, di);
    } else if xi < 0 && di < 0 {
        lemma_div_pos_is_pos(xi * -1, di * -1);
        if di == -1 {
            assert((xi * -1) / 1 == xi * -1);
        } else {
            lemma_div_is_ordered_by_denominator(xi * -1, 2, di * -1);
            lemma_div_nonincreasing(xi * -1, 2);
        }
    } else if xi < 0 {
        lemma_div_pos_is_pos(xi * -1, di);
        lemma_div_nonincreasing(xi * -1, di);
    } else {
        lemma_div_pos_is_pos(xi, di * -1);
        lemma_div_nonincreasing(xi, di * -1);
    }
}

/// A dense, row-major buffer of elements tagged with its shape.
/// Well-formed arrays hold exactly one element per addressable position.
pub struct NDArray<T: DType> {
    pub shape: Shape,
    pub data: Vec<T>,
}

/// Computes the linear offset of an index tuple from the strides;
/// indexing outside the shape is excluded by precondition.
pub fn index_to_i(shape: &Shape, strides: &Vec<usize>, index: &Vec<usize>) -> (r: usize)
    requires
        shape.wf(),
        strides@.len() == shape.dims@.len(),
        forall|k: int|
            0 <= k < strides@.len() ==> strides@[k] == dim_product(shape.dims@.skip(k + 1)),
        index_in_bounds(shape.dims@, index@),
    ensures
        r == linear_index(shape.dims@, index@),
{
    proof {
        lemma_linear_index_bound(shape.dims@, index@);
    }
    let len = index.len();
    let mut acc: usize = 0;
    let mut k: usize = len;
    while k > 0
        invariant
            shape.wf(),
            k <= len,
            len == index@.len(),
            strides@.len() == len,
            index_in_bounds(shape.dims@, index@),
            forall|q: int|
                0 <= q < strides@.len() ==> strides@[q] == dim_product(
                    shape.dims@.skip(q + 1),
                ),
            acc == crate::ndarray::shape::linear_index_from(shape.dims@, index@, k as int),
        decreases k,
    {
        k = k - 1;
        proof {
            crate::ndarray::shape::lemma_linear_index_from_bound(
                shape.dims@,
                index@,
                k as int,
            );
            assert(dim_product(shape.dims@.skip(k as int)) <= usize::MAX);
        }
        acc = index[k] * strides[k] + acc;
    }
    acc
}

impl<T: DType> NDArray<T> {
    /// The buffer holds exactly `element_count` values and every stride is
    /// machine-representable.
    pub open spec fn wf(&self) -> bool {
        &&& self.shape.wf()
        &&& self.data@.len() == dim_product(self.shape.dims@)
    }

    pub open spec fn dims(&self) -> Seq<usize> {
        self.shape.dims@
    }

    /// The element at a per-axis index tuple, located at the row-major
    /// offset `sum over k of index[k] * stride[k]`.
    pub fn index(&self, index: &Vec<usize>) -> (r: T)
        requires
            self.wf(),
            index_in_bounds(self.shape.dims@, index@),
        ensures
            r == self.data@[linear_index(self.shape.dims@, index@)],
    {
        let strides = self.shape.strides();
        let i = index_to_i(&self.shape, &strides, index);
        proof {
            lemma_linear_index_bound(self.shape.dims@, index@);
        }
        self.data[i]
    }
}

impl<T: DType> Clone for NDArray<T> {
    fn clone(&self) -> (r: Self)
        ensures
            r.shape.dims@ == self.shape.dims@,
            r.data@ == self.data@,
    {
        let mut data: Vec<T> = Vec::new();
        let mut k: usize = 0;
        let len = self.data.len();
        while k < len
            invariant
                k <= len,
                len == self.data@.len(),
                data@ == self.data@.take(k as int),
            decreases len - k,
        {
            data.push(self.data[k]);
            proof {
                assert(data@ =~= self.data@.take(k as int + 1));
            }
            k = k + 1;
        }
        proof {
            assert(self.data@.take(len as int) =~= self.data@);
        }
        NDArray { shape: self.shape.clone(), data }
    }
}

/// Conversion of a nested literal into an array of the matching shape.
/// The marker parameter `S` records the nesting pattern, so literals of
/// different ranks get distinct conversions.
pub trait IntoNDArray<T: DType, S>: Sized {
    spec fn into_dims(self) -> Seq<usize>;

    spec fn into_data(self) -> Seq<T>;

    /// The literal's nesting fits in memory as one dense buffer.
    spec fn into_wf(self) -> bool;

    fn into_array(self) -> (r: NDArray<T>)
        requires
            self.into_wf(),
        ensures
            r.wf(),
            r.shape.dims@ == self.into_dims(),
            r.data@ == self.into_data(),
    ;
}

impl<T: DType> IntoNDArray<T, Rank0> for T {
    open spec fn into_dims(self) -> Seq<usize> {
        Seq::empty()
    }

    open spec fn into_data(self) -> Seq<T> {
        seq![self]
    }

    open spec fn into_wf(self) -> bool {
        true
    }

    fn into_array(self) -> (r: NDArray<T>) {
        let dims: Vec<usize> = Vec::new();
        let mut data: Vec<T> = Vec::new();
        data.push(self);
        let r = NDArray { shape: Shape { dims }, data };
        proof {
            assert(r.shape.dims@ =~= Seq::<usize>::empty());
            lemma_dim_product_empty();
            assert(r.data@ =~= seq![self]);
        }
        r
    }
}

impl<T: DType, const M: usize> IntoNDArray<T, Rank1<M>> for [T; M] {
    open spec fn into_dims(self) -> Seq<usize> {
        seq![M]
    }

    open spec fn into_data(self) -> Seq<T> {
        self@
    }

    open spec fn into_wf(self) -> bool {
        true
    }

    fn into_array(self) -> (r: NDArray<T>) {
        let m = Const::<M>.size();
        let mut dims: Vec<usize> = Vec::new();
        dims.push(m);
        let mut data: Vec<T> = Vec::new();
        let mut k: usize = 0;
        while k < m
            invariant
                k <= m,
                m == M,
                data@ == self@.take(k as int),
            decreases m - k,
        {
            data.push(self[k]);
            proof {
                assert(data@ =~= self@.take(k as int + 1));
            }
            k = k + 1;
        }
        let r = NDArray { shape: Shape { dims }, data };
        proof {
            assert(r.shape.dims@ =~= seq![M]);
            assert(r.data@ =~= self@);
            lemma_dim_product_single(M);
        }
        r
    }
}

impl<T: DType, const M: usize, const N: usize> IntoNDArray<T, Rank2<M, N>> for [[T; N]; M] {
    open spec fn into_dims(self) -> Seq<usize> {
        seq![M, N]
    }

    open spec fn into_data(self) -> Seq<T> {
        Seq::new((M * N) as nat, |p: int| self@[p / (N as int)]@[p % (N as int)])
    }

    open spec fn into_wf(self) -> bool {
        M * N <= usize::MAX
    }

    fn into_array(self) -> (r: NDArray<T>) {
        let m = Const::<M>.size();
        let n = Const::<N>.size();
        let mut dims: Vec<usize> = Vec::new();
        dims.push(m);
        dims.push(n);
        let mut data: Vec<T> = Vec::new();
        let mut i: usize = 0;
        while i < m
            invariant
                i <= m,
                m == M,
                n == N,
                M * N <= usize::MAX,
                data@.len() == i * n,
                forall|p: int|
                    0 <= p < data@.len() ==> data@[p] == self@[p / (N as int)]@[p % (N as int)],
            decreases m - i,
        {
            let mut j: usize = 0;
            while j < n
                invariant
                    i < m,
                    j <= n,
                    m == M,
                    n == N,
                    M * N <= usize::MAX,
                    data@.len() == i * n + j,
                    forall|p: int|
                        0 <= p < data@.len() ==> data@[p] == self@[p / (N as int)]@[p % (N as int)],
                decreases n - j,
            {
                proof {
                    assert(i * (n as int) + j < M * N) by (nonlinear_arith)
                        requires
                            0 <= i < m,
                            0 <= j < n,
                            m == M,
                            n == N,
                    ;
                    vstd::arithmetic::div_mod::lemma_fundamental_div_mod_converse(
                        i * (n as int) + j,
                        n as int,
                        i as int,
                        j as int,
                    );
                }
                data.push(self[i][j]);
                j = j + 1;
            }
            proof {
                assert(i * (n as int) + n == (i + 1) * (n as int)) by (nonlinear_arith);
            }
            i = i + 1;
        }
        let r = NDArray { shape: Shape { dims }, data };
        proof {
            assert(r.shape.dims@ =~= seq![M, N]);
            lemma_shape_wf_pair(M, N);
            assert(r.data@ =~= Seq::new(
                (M * N) as nat,
                |p: int| self@[p / (N as int)]@[p % (N as int)],
            ));
        }
        r
    }
}

} // verus!
