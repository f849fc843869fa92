//! Shapes, strides and start offsets of tensor operands, together with the
//! product arithmetic the op encoders need to size their dispatches.

use vstd::prelude::*;

verus! {

use crate::at_least_one;

/// Product of the entries of a shape, as a mathematical integer.
pub open spec fn seq_product(s: Seq<u32>) -> int
    decreases s.len(),
{
    if s.len() == 0 {
        1
    } else {
        seq_product(s.drop_last()) * s.last()
    }
}

/// Product with every entry clamped to at least 1; it bounds every partial
/// product of the plain product from above.
pub open spec fn seq_product_clamped(s: Seq<u32>) -> int
    decreases s.len(),
{
    if s.len() == 0 {
        1
    } else {
        seq_product_clamped(s.drop_last()) * at_least_one(s.last() as int)
    }
}

pub proof fn lemma_clamped_ge_one(s: Seq<u32>)
    ensures
        seq_product_clamped(s) >= 1,
    decreases s.len(),
{
    if s.len() > 0 {
        lemma_clamped_ge_one(s.drop_last());
        let a = seq_product_clamped(s.drop_last());
        let b = at_least_one(s.last() as int);
        assert(a * b >= 1) by (nonlinear_arith)
            requires
                a >= 1,
                b >= 1,
        ;
    }
}

pub proof fn lemma_product_bounds(s: Seq<u32>)
    ensures
        0 <= seq_product(s),
        seq_product(s) <= seq_product_clamped(s),
    decreases s.len(),
{
    if s.len() > 0 {
        lemma_product_bounds(s.drop_last());
        lemma_clamped_ge_one(s.drop_last());
        let a = seq_product(s.drop_last());
        let ac = seq_product_clamped(s.drop_last());
        let b = s.last() as int;
        let bc = at_least_one(b);
        assert(0 <= a * b && a * b <= ac * bc) by (nonlinear_arith)
            requires
                0 <= a,
                a <= ac,
                1 <= ac,
                0 <= b,
                b <= bc,
        ;
    }
}

pub proof fn lemma_product_concat(a: Seq<u32>, b: Seq<u32>)
    ensures
        seq_product(a + b) == seq_product(a) * seq_product(b),
        seq_product_clamped(a + b) == seq_product_clamped(a) * seq_product_clamped(b),
    decreases b.len(),
{
    if b.len() == 0 {
        assert(a + b =~= a);
    } else {
        assert((a + b).drop_last() =~= a + b.drop_last());
        lemma_product_concat(a, b.drop_last());
        let pa = seq_product(a);
        let pb = seq_product(b.drop_last());
        let l = b.last() as int;
        assert((pa * pb) * l == pa * (pb * l)) by (nonlinear_arith);
        let ca = seq_product_clamped(a);
        let cb = seq_product_clamped(b.drop_last());
        let cl = at_least_one(l);
        assert((ca * cb) * cl == ca * (cb * cl)) by (nonlinear_arith);
    }
}

pub proof fn lemma_product_singleton(v: u32)
    ensures
        seq_product(seq![v]) == v,
        seq_product_clamped(seq![v]) == at_least_one(v as int),
{
    let s = seq![v];
    assert(s.len() == 1);
    assert(s.last() == v);
    assert(s.drop_last() =~= Seq::<u32>::empty());
    assert(seq_product(Seq::<u32>::empty()) == 1);
    assert(seq_product_clamped(Seq::<u32>::empty()) == 1);
}

/// `take(i + 1)` appends `s[i]` to `take(i)`.
pub proof fn lemma_take_snoc(s: Seq<u32>, i: int)
    requires
        0 <= i < s.len(),
    ensures
        seq_product(s.take(i + 1)) == seq_product(s.take(i)) * s[i],
        seq_product_clamped(s.take(i + 1)) == seq_product_clamped(s.take(i)) * at_least_one(
            s[i] as int,
        ),
{
    assert(s.take(i + 1) =~= s.take(i) + seq![s[i]]);
    lemma_product_concat(s.take(i), seq![s[i]]);
    lemma_product_singleton(s[i]);
}

/// `skip(j)` prepends `s[j]` to `skip(j + 1)`.
pub proof fn lemma_skip_unfold(s: Seq<u32>, j: int)
    requires
        0 <= j < s.len(),
    ensures
        seq_product(s.skip(j)) == s[j] * seq_product(s.skip(j + 1)),
        seq_product_clamped(s.skip(j)) == at_least_one(s[j] as int) * seq_product_clamped(
            s.skip(j + 1),
        ),
{
    assert(s.skip(j) =~= seq![s[j]] + s.skip(j + 1));
    lemma_product_concat(seq![s[j]], s.skip(j + 1));
    lemma_product_singleton(s[j]);
}

/// Every prefix's clamped product is bounded by the whole sequence's.
pub proof fn lemma_clamped_take_le(s: Seq<u32>, i: int)
    requires
        0 <= i <= s.len(),
    ensures
        seq_product_clamped(s.take(i)) <= seq_product_clamped(s),
{
    assert(s =~= s.take(i) + s.skip(i));
    lemma_product_concat(s.take(i), s.skip(i));
    lemma_clamped_ge_one(s.take(i));
    lemma_clamped_ge_one(s.skip(i));
    let a = seq_product_clamped(s.take(i));
    let b = seq_product_clamped(s.skip(i));
    assert(a <= a * b) by (nonlinear_arith)
        requires
            a >= 1,
            b >= 1,
    ;
}

/// Every suffix's clamped product is bounded by the whole sequence's.
pub proof fn lemma_clamped_skip_le(s: Seq<u32>, i: int)
    requires
        0 <= i <= s.len(),
    ensures
        seq_product_clamped(s.skip(i)) <= seq_product_clamped(s),
{
    assert(s =~= s.take(i) + s.skip(i));
    lemma_product_concat(s.take(i), s.skip(i));
    lemma_clamped_ge_one(s.take(i));
    lemma_clamped_ge_one(s.skip(i));
    let a = seq_product_clamped(s.take(i));
    let b = seq_product_clamped(s.skip(i));
    assert(b <= a * b) by (nonlinear_arith)
        requires
            a >= 1,
            b >= 1,
    ;
}

/// Shape, per-dimension stride and start offset (in elements) of an operand.
pub struct Layout {
    pub shape: Vec<u32>,
    pub stride: Vec<u32>,
    pub start_offset: u32,
}

impl Layout {
    /// Shape and stride agree in rank, and the rank is small enough for a
    /// layout record to fit a dispatch's 256-byte metadata window.
    pub open spec fn wf(&self) -> bool {
        &&& self.shape@.len() == self.stride@.len()
        &&& self.shape@.len() <= 24
    }

    pub open spec fn rank(&self) -> int {
        self.shape@.len() as int
    }

    pub open spec fn elem_count_spec(&self) -> int {
        seq_product(self.shape@)
    }

    /// All partial shape products stay within `u64` range.
    pub open spec fn counts_fit(&self) -> bool {
        seq_product_clamped(self.shape@) <= u64::MAX
    }

    /// Strides are exactly the row-major contiguous strides of the shape.
    pub open spec fn contiguous_spec(&self) -> bool {
        forall|i: int|
            0 <= i < self.stride@.len() ==> self.stride@[i] == seq_product(
                self.shape@.skip(i + 1),
            )
    }

    /// The canonical metadata encoding of a layout: rank, shape words,
    /// stride words, start offset.
    pub open spec fn meta_words(&self) -> Seq<u32> {
        seq![self.shape@.len() as u32] + self.shape@ + self.stride@ + seq![self.start_offset]
    }

    pub fn new(shape: Vec<u32>, stride: Vec<u32>, start_offset: u32) -> (r: Layout)
        ensures
            r.shape@ == shape@,
            r.stride@ == stride@,
            r.start_offset == start_offset,
    {
        Layout { shape, stride, start_offset }
    }

    /// Number of elements the layout's shape spans.
    pub fn elem_count(&self) -> (r: u64)
        requires
            self.counts_fit(),
        ensures
            r == self.elem_count_spec(),
    {
        let n = self.shape.len();
        let mut acc: u64 = 1;
        let mut i: usize = 0;
        while i < n
            invariant
                0 <= i <= n,
                n == self.shape@.len(),
                acc == seq_product(self.shape@.take(i as int)),
                self.counts_fit(),
            decreases n - i,
        {
            proof {
                lemma_take_snoc(self.shape@, i as int);
                lemma_clamped_take_le(self.shape@, i as int + 1);
                lemma_product_bounds(self.shape@.take(i as int + 1));
                lemma_product_bounds(self.shape@.take(i as int));
            }
            acc = acc * (self.shape[i] as u64);
            i += 1;
        }
        proof {
            assert(self.shape@.take(n as int) =~= self.shape@);
        }
        acc
    }

    /// The contiguous row-major layout over `shape`, starting at offset 0.
    pub fn contiguous(shape: &Vec<u32>) -> (r: Layout)
        requires
            shape@.len() <= 24,
            seq_product_clamped(shape@) <= u32::MAX,
        ensures
            r.wf(),
            r.shape@ == shape@,
            r.start_offset == 0,
            r.contiguous_spec(),
            r.counts_fit(),
    {
        let n = shape.len();
        let mut rev: Vec<u32> = Vec::new();
        let mut acc: u32 = 1;
        let mut j: usize = n;
        while j > 0
            invariant
                0 <= j <= n,
                n == shape@.len(),
                seq_product_clamped(shape@) <= u32::MAX,
                acc == seq_product(shape@.skip(j as int)),
                rev@.len() == n - j,
                forall|k: int|
                    0 <= k < rev@.len() ==> rev@[k] == seq_product(shape@.skip(n - k as int)),
            decreases j,
        {
            j = j - 1;
            rev.push(acc);
            proof {
                lemma_skip_unfold(shape@, j as int);
                lemma_clamped_skip_le(shape@, j as int);
                lemma_product_bounds(shape@.skip(j as int));
                lemma_product_bounds(shape@.skip(j as int + 1));
            }
            acc = self_mul_u32(shape[j], acc);
        }
        let mut stride: Vec<u32> = Vec::new();
        let mut i: usize = 0;
        while i < n
            invariant
                0 <= i <= n,
                n == shape@.len(),
                rev@.len() == n,
                forall|k: int| 0 <= k < n ==> rev@[k] == seq_product(shape@.skip(n - k as int)),
                stride@.len() == i,
                forall|k: int|
                    0 <= k < i ==> stride@[k] == seq_product(shape@.skip(k + 1)),
            decreases n - i,
        {
            stride.push(rev[n - 1 - i]);
            i += 1;
        }
        let r = Layout { shape: clone_u32_vec(shape), stride, start_offset: 0 };
        proof {
            lemma_product_bounds(r.shape@);
        }
        r
    }

    /// Whether the strides are exactly the contiguous strides of the shape.
    pub fn is_contiguous(&self) -> (r: bool)
        requires
            self.wf(),
        ensures
            r == self.contiguous_spec(),
    {
        let n = self.shape.len();
        // `acc` mirrors the suffix product `seq_product(shape[j..])`: exact
        // while it fits a `u32`, and pinned to `u32::MAX + 1` once the real
        // product is known to exceed every representable stride.
        let cap: u64 = 0x1_0000_0000;
        let mut acc: u64 = 1;
        let mut ok = true;
        let mut j: usize = n;
        while j > 0
            invariant
                0 <= j <= n,
                n == self.shape@.len(),
                n == self.stride@.len(),
                acc <= cap,
                cap == 0x1_0000_0000,
                acc < cap ==> acc == seq_product(self.shape@.skip(j as int)),
                acc == cap ==> seq_product(self.shape@.skip(j as int)) > u32::MAX,
                ok == (forall|i: int|
                    j <= i < n ==> self.stride@[i] == seq_product(self.shape@.skip(i + 1))),
            decreases j,
        {
            j = j - 1;
            proof {
                lemma_skip_unfold(self.shape@, j as int);
                lemma_product_bounds(self.shape@.skip(j as int));
                lemma_product_bounds(self.shape@.skip(j as int + 1));
            }
            let matches_here = acc < cap && (self.stride[j] as u64) == acc;
            proof {
                assert(matches_here == (self.stride@[j as int] == seq_product(
                    self.shape@.skip(j as int + 1),
                )));
            }
            ok = ok && matches_here;
            let s = self.shape[j] as u64;
            if acc == cap {
                if s == 0 {
                    acc = 0;
                } else {
                    proof {
                        let p = seq_product(self.shape@.skip(j as int + 1));
                        assert(s * p > u32::MAX) by (nonlinear_arith)
                            requires
                                s >= 1,
                                p > u32::MAX,
                        ;
                    }
                }
            } else {
                proof {
                    assert(s * acc <= u64::MAX) by (nonlinear_arith)
                        requires
                            s <= 0xFFFF_FFFFu64,
                            acc <= 0xFFFF_FFFFu64,
                    ;
                }
                let t = s * acc;
                if t > u32::MAX as u64 {
                    acc = cap;
                } else {
                    acc = t;
                }
            }
        }
        ok
    }
}

/// Multiplies two shape factors whose product is known to fit.
fn self_mul_u32(a: u32, b: u32) -> (r: u32)
    requires
        a * b <= u32::MAX,
    ensures
        r == a * b,
{
    a * b
}

/// Element-wise copy of a shape or stride vector.
pub fn clone_u32_vec(v: &Vec<u32>) -> (r: Vec<u32>)
    ensures
        r@ == v@,
{
    let mut r: Vec<u32> = Vec::new();
    let mut i: usize = 0;
    while i < v.len()
        invariant
            0 <= i <= v@.len(),
            r@ == v@.take(i as int),
        decreases v@.len() - i,
    {
        r.push(v[i]);
        proof {
            assert(v@.take(i as int + 1) =~= v@.take(i as int).push(v@[i as int]));
        }
        i += 1;
    }
    proof {
        assert(v@.take(v@.len() as int) =~= v@);
    }
    r
}

/// Element-wise copy of an index vector.
pub fn clone_usize_vec(v: &Vec<usize>) -> (r: Vec<usize>)
    ensures
        r@ == v@,
{
    let mut r: Vec<usize> = Vec::new();
    let mut i: usize = 0;
    while i < v.len()
        invariant
            0 <= i <= v@.len(),
            r@ == v@.take(i as int),
        decreases v@.len() - i,
    {
        r.push(v[i]);
        proof {
            assert(v@.take(i as int + 1) =~= v@.take(i as int).push(v@[i as int]));
        }
        i += 1;
    }
    proof {
        assert(v@.take(v@.len() as int) =~= v@);
    }
    r
}

} // verus!
