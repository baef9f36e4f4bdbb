use vstd::prelude::*;

verus! {

/// A compile-time-known axis extent.
#[derive(Clone, Copy)]
pub struct Const<const N: usize>;

/// The capability of reporting a single axis extent.
pub trait Dim {
    spec fn spec_size(&self) -> usize;

    fn size(&self) -> (n: usize)
        ensures
            n == self.spec_size(),
    ;
}

impl<const N: usize> Dim for Const<N> {
    open spec fn spec_size(&self) -> usize {
        N
    }

    fn size(&self) -> usize {
        N
    }
}

/// Marker for the shape of a rank-0 (scalar) nested literal.
pub type Rank0 = ();

/// Marker for the shape of a rank-1 nested literal of length M.
pub type Rank1<const M: usize> = (Const<M>,);

/// Marker for the shape of a rank-2 nested literal with M rows of N columns.
pub type Rank2<const M: usize, const N: usize> = (Const<M>, Const<N>);

/// Product of all axis extents, as an unbounded integer.
pub open spec fn dim_product(dims: Seq<usize>) -> int
    decreases dims.len(),
{
    if dims.len() == 0 {
        1
    } else {
        dims[0] * dim_product(dims.skip(1))
    }
}

/// Every suffix product of the extents fits in a machine word, so every
/// stride and the element count are representable as `usize`.
pub open spec fn shape_dims_wf(dims: Seq<usize>) -> bool {
    forall|k: int| 0 <= k <= dims.len() ==> dim_product(#[trigger] dims.skip(k)) <= usize::MAX
}

pub proof fn lemma_dim_product_unfold(dims: Seq<usize>, k: int)
    requires
        0 <= k < dims.len(),
    ensures
        dim_product(dims.skip(k)) == dims[k] * dim_product(dims.skip(k + 1)),
{
    assert(dims.skip(k).skip(1) =~= dims.skip(k + 1));
    assert(dims.skip(k)[0] == dims[k]);
}

pub proof fn lemma_dim_product_nonneg(dims: Seq<usize>)
    ensures
        dim_product(dims) >= 0,
    decreases dims.len(),
{
    if dims.len() > 0 {
        lemma_dim_product_nonneg(dims.skip(1));
        assert(dims[0] * dim_product(dims.skip(1)) >= 0) by (nonlinear_arith)
            requires
                dims[0] >= 0,
                dim_product(dims.skip(1)) >= 0,
        ;
    }
}

pub proof fn lemma_dim_product_empty()
    ensures
        dim_product(Seq::<usize>::empty()) == 1,
        shape_dims_wf(Seq::<usize>::empty()),
{
    assert forall|k: int|
        0 <= k <= Seq::<usize>::empty().len() implies dim_product(
        #[trigger] Seq::<usize>::empty().skip(k),
    ) <= usize::MAX by {
        assert(Seq::<usize>::empty().skip(k) =~= Seq::<usize>::empty());
    }
}

pub proof fn lemma_dim_product_single(d: usize)
    ensures
        dim_product(seq![d]) == d,
        shape_dims_wf(seq![d]),
{
    lemma_dim_product_empty();
    let s = seq![d];
    assert(s.skip(1) =~= Seq::<usize>::empty());
    assert(dim_product(s) == d * dim_product(s.skip(1)));
    assert forall|k: int| 0 <= k <= s.len() implies dim_product(#[trigger] s.skip(k))
        <= usize::MAX by {
        if k == 0 {
            assert(s.skip(0) =~= s);
        } else {
            assert(s.skip(k) =~= Seq::<usize>::empty());
        }
    }
}

pub proof fn lemma_dim_product_pair(a: usize, b: usize)
    ensures
        dim_product(seq![a, b]) == a * b,
{
    lemma_dim_product_single(b);
    assert(seq![a, b].skip(1) =~= seq![b]);
    assert(dim_product(seq![a, b]) == a * dim_product(seq![a, b].skip(1)));
}

pub proof fn lemma_shape_wf_pair(a: usize, b: usize)
    requires
        a * b <= usize::MAX,
    ensures
        shape_dims_wf(seq![a, b]),
        dim_product(seq![a, b]) == a * b,
{
    lemma_dim_product_pair(a, b);
    lemma_dim_product_single(b);
    lemma_dim_product_empty();
    let s = seq![a, b];
    assert forall|k: int| 0 <= k <= s.len() implies dim_product(#[trigger] s.skip(k))
        <= usize::MAX by {
        if k == 0 {
            assert(s.skip(0) =~= s);
        } else if k == 1 {
            assert(s.skip(1) =~= seq![b]);
        } else {
            assert(s.skip(k) =~= Seq::<usize>::empty());
        }
    }
}

pub proof fn lemma_dim_product_concat(a: Seq<usize>, b: Seq<usize>)
    ensures
        dim_product(a + b) == dim_product(a) * dim_product(b),
    decreases a.len(),
{
    if a.len() == 0 {
        assert(a + b =~= b);
    } else {
        lemma_dim_product_concat(a.skip(1), b);
        assert((a + b).skip(1) =~= a.skip(1) + b);
        assert((a + b)[0] == a[0]);
        assert(a[0] * (dim_product(a.skip(1)) * dim_product(b)) == (a[0] * dim_product(
            a.skip(1),
        )) * dim_product(b)) by (nonlinear_arith);
    }
}

/// Doubling a well-formed shape (as the gradient query does) keeps it
/// well-formed, as long as the squared element count is representable.
pub proof fn lemma_shape_wf_concat_self(d: Seq<usize>)
    requires
        shape_dims_wf(d),
        dim_product(d) * dim_product(d) <= usize::MAX,
    ensures
        shape_dims_wf(d + d),
        dim_product(d + d) == dim_product(d) * dim_product(d),
{
    lemma_dim_product_concat(d, d);
    let dd = d + d;
    let p = dim_product(d);
    lemma_dim_product_nonneg(d);
    assert forall|k: int| 0 <= k <= dd.len() implies dim_product(#[trigger] dd.skip(k))
        <= usize::MAX by {
        if k >= d.len() {
            assert(dd.skip(k) =~= d.skip(k - d.len()));
            assert(dim_product(d.skip(k - d.len())) <= usize::MAX);
        } else {
            assert(dd.skip(k) =~= d.skip(k) + d);
            lemma_dim_product_concat(d.skip(k), d);
            lemma_dim_product_nonneg(d.skip(k));
            let pk = dim_product(d.skip(k));
            if p == 0 {
                assert(pk * p == 0) by (nonlinear_arith)
                    requires
                        p == 0,
                ;
            } else {
                assert(d =~= d.take(k) + d.skip(k));
                lemma_dim_product_concat(d.take(k), d.skip(k));
                lemma_dim_product_nonneg(d.take(k));
                let qk = dim_product(d.take(k));
                assert(p == qk * pk);
                if qk == 0 {
                    assert(p == 0) by (nonlinear_arith)
                        requires
                            qk == 0,
                            p == qk * pk,
                    ;
                }
                assert(pk <= p) by (nonlinear_arith)
                    requires
                        p == qk * pk,
                        qk >= 1,
                        pk >= 0,
                ;
                assert(pk * p <= p * p) by (nonlinear_arith)
                    requires
                        pk <= p,
                        p >= 0,
                ;
            }
        }
    }
}

/// The element of a row-major rank-2 buffer with `n` columns at row `i`,
/// column `j`.
pub open spec fn rank2_at<T>(data: Seq<T>, n: int, i: int, j: int) -> T {
    data[i * n + j]
}

/// A run-time shape descriptor: the ordered axis extents of an array.
/// Rank and extents are fixed at construction and never change.
pub struct Shape {
    pub dims: Vec<usize>,
}

impl Shape {
    pub open spec fn wf(&self) -> bool {
        shape_dims_wf(self.dims@)
    }

    pub open spec fn spec_n_elements(&self) -> int {
        dim_product(self.dims@)
    }

    pub fn new(dims: Vec<usize>) -> (s: Shape)
        requires
            shape_dims_wf(dims@),
        ensures
            s.dims@ == dims@,
            s.wf(),
    {
        Shape { dims }
    }

    /// The ordered axis-extent sequence.
    pub fn shape(&self) -> (r: &Vec<usize>)
        ensures
            r@ == self.dims@,
    {
        &self.dims
    }

    pub fn n_dims(&self) -> (n: usize)
        ensures
            n == self.dims@.len(),
    {
        self.dims.len()
    }

    /// Product of the extents of axes `k..`, the stride of axis `k - 1`.
    fn suffix_product(&self, k: usize) -> (p: usize)
        requires
            self.wf(),
            k <= self.dims@.len(),
        ensures
            p == dim_product(self.dims@.skip(k as int)),
    {
        let len = self.dims.len();
        let mut p: usize = 1;
        let mut j: usize = len;
        while j > k
            invariant
                self.wf(),
                k <= j <= len,
                len == self.dims@.len(),
                p == dim_product(self.dims@.skip(j as int)),
            decreases j,
        {
            j = j - 1;
            proof {
                lemma_dim_product_unfold(self.dims@, j as int);
                lemma_dim_product_nonneg(self.dims@.skip(j as int + 1));
                assert(dim_product(self.dims@.skip(j as int)) <= usize::MAX);
            }
            p = self.dims[j] * p;
        }
        p
    }

    /// Total number of elements: the product of all axis extents.
    pub fn n_elements(&self) -> (n: usize)
        requires
            self.wf(),
        ensures
            n == self.spec_n_elements(),
    {
        let n = self.suffix_product(0);
        proof {
            assert(self.dims@.skip(0) =~= self.dims@);
        }
        n
    }

    /// Row-major strides: the stride of axis `k` is the product of the
    /// extents of all later axes; the innermost stride is 1.
    pub fn strides(&self) -> (r: Vec<usize>)
        requires
            self.wf(),
        ensures
            r@.len() == self.dims@.len(),
            forall|k: int|
                0 <= k < r@.len() ==> r@[k] == dim_product(self.dims@.skip(k + 1)),
    {
        let len = self.dims.len();
        let mut r: Vec<usize> = Vec::new();
        let mut k: usize = 0;
        while k < len
            invariant
                self.wf(),
                k <= len,
                len == self.dims@.len(),
                r@.len() == k,
                forall|q: int|
                    0 <= q < k ==> r@[q] == dim_product(self.dims@.skip(q + 1)),
            decreases len - k,
        {
            let s = self.suffix_product(k + 1);
            r.push(s);
            k = k + 1;
        }
        r
    }
}

impl Clone for Shape {
    fn clone(&self) -> (r: Self)
        ensures
            r.dims@ == self.dims@,
    {
        let r = Shape { dims: self.dims.clone() };
        proof {
            assert(r.dims@ =~= self.dims@);
        }
        r
    }
}

/// Each index component addresses a valid position on its axis.
pub open spec fn index_in_bounds(dims: Seq<usize>, index: Seq<usize>) -> bool {
    &&& index.len() == dims.len()
    &&& forall|k: int| 0 <= k < dims.len() ==> index[k] < dims[k]
}

/// The row-major linear offset contributed by index components `k..`.
pub open spec fn linear_index_from(dims: Seq<usize>, index: Seq<usize>, k: int) -> int
    decreases dims.len() - k,
{
    if k < 0 || k >= dims.len() {
        0
    } else {
        index[k] * dim_product(dims.skip(k + 1)) + linear_index_from(dims, index, k + 1)
    }
}

/// The row-major linear offset of a full index tuple:
/// the sum over all axes of `index[k] * stride[k]`.
pub open spec fn linear_index(dims: Seq<usize>, index: Seq<usize>) -> int {
    linear_index_from(dims, index, 0)
}

pub proof fn lemma_linear_index_from_bound(dims: Seq<usize>, index: Seq<usize>, k: int)
    requires
        index_in_bounds(dims, index),
        0 <= k <= dims.len(),
    ensures
        0 <= linear_index_from(dims, index, k) < dim_product(dims.skip(k)),
    decreases dims.len() - k,
{
    if k == dims.len() {
        assert(dims.skip(k).len() == 0);
    } else {
        lemma_linear_index_from_bound(dims, index, k + 1);
        lemma_dim_product_unfold(dims, k);
        let p = dim_product(dims.skip(k + 1));
        let rest = linear_index_from(dims, index, k + 1);
        assert(index[k] * p <= (dims[k] - 1) * p) by (nonlinear_arith)
            requires
                index[k] <= dims[k] - 1,
                p >= 0,
        ;
        assert((dims[k] - 1) * p + p == dims[k] * p) by (nonlinear_arith);
        assert(index[k] * p >= 0) by (nonlinear_arith)
            requires
                index[k] >= 0,
                p >= 0,
        ;
    }
}

/// A valid index tuple always addresses an offset inside the buffer.
pub proof fn lemma_linear_index_bound(dims: Seq<usize>, index: Seq<usize>)
    requires
        index_in_bounds(dims, index),
    ensures
        0 <= linear_index(dims, index) < dim_product(dims),
{
    lemma_linear_index_from_bound(dims, index, 0);
    assert(dims.skip(0) =~= dims);
}

/// For a rank-1 shape the row-major offset is the index itself.
pub proof fn lemma_linear_index_rank1(m: usize, i: usize)
    requires
        i < m,
    ensures
        linear_index(seq![m], seq![i]) == i,
{
    let dims = seq![m];
    let index = seq![i];
    assert(dims.skip(1) =~= Seq::<usize>::empty());
    assert(dim_product(dims.skip(1)) == 1);
    assert(linear_index_from(dims, index, 1) == 0);
    assert(linear_index_from(dims, index, 0) == i * 1 + 0);
}

/// For a rank-2 shape the row-major offset is the familiar `i * n + j`.
pub proof fn lemma_linear_index_rank2(m: usize, n: usize, i: usize, j: usize)
    requires
        i < m,
        j < n,
    ensures
        linear_index(seq![m, n], seq![i, j]) == i * n + j,
{
    let dims = seq![m, n];
    let index = seq![i, j];
    assert(dims.skip(1) =~= seq![n]);
    assert(dims.skip(2) =~= Seq::<usize>::empty());
    assert(seq![n].skip(1) =~= Seq::<usize>::empty());
    assert(dim_product(dims.skip(2)) == 1);
    assert(dim_product(dims.skip(1)) == n * 1);
    assert(linear_index_from(dims, index, 2) == 0);
    assert(linear_index_from(dims, index, 1) == j * 1 + 0);
    assert(linear_index_from(dims, index, 0) == i * (n * 1) + (j * 1 + 0));
}

} // verus!
