use vstd::prelude::*;

use crate::types::ConvFloat;

verus! {

// ---------------------------------------------------------------------------
// Specification model: iterates are flat sequences of abstract scalars, and
// every elementwise operation of the accelerator has a sequence-level model.
// ---------------------------------------------------------------------------

/// One damped-mixing element: `eta * curr + (1 - eta) * prev`.
pub open spec fn damp_s<S: ConvFloat>(eta: S, prev: S, curr: S) -> S {
    curr.mul_s(eta).add_s(prev.mul_s(S::one_s().sub_s(eta)))
}

/// Elementwise damped mixing of two equal-length arrays.
pub open spec fn damp_seq<S: ConvFloat>(eta: S, prev: Seq<S>, curr: Seq<S>) -> Seq<S> {
    Seq::new(prev.len(), |i: int| damp_s(eta, prev[i], curr[i]))
}

/// Elementwise difference `a - b`.
pub open spec fn sub_seq<S: ConvFloat>(a: Seq<S>, b: Seq<S>) -> Seq<S> {
    Seq::new(a.len(), |i: int| a[i].sub_s(b[i]))
}

/// Elementwise sum `a + b`.
pub open spec fn add_seq<S: ConvFloat>(a: Seq<S>, b: Seq<S>) -> Seq<S> {
    Seq::new(a.len(), |i: int| a[i].add_s(b[i]))
}

/// Every element multiplied by the scalar `c`.
pub open spec fn scale_seq<S: ConvFloat>(a: Seq<S>, c: S) -> Seq<S> {
    Seq::new(a.len(), |i: int| a[i].mul_s(c))
}

/// The all-zero array of length `n`.
pub open spec fn zeros_seq<S: ConvFloat>(n: nat) -> Seq<S> {
    Seq::new(n, |i: int| S::zero_s())
}

/// Left-to-right sum of all elements.
pub open spec fn sum_s<S: ConvFloat>(a: Seq<S>) -> S
    decreases a.len(),
{
    if a.len() == 0 {
        S::zero_s()
    } else {
        sum_s(a.drop_last()).add_s(a.last())
    }
}

/// Left-to-right dot product of two equal-length arrays.
pub open spec fn dot_s<S: ConvFloat>(a: Seq<S>, b: Seq<S>) -> S
    decreases a.len(),
{
    if a.len() == 0 {
        S::zero_s()
    } else {
        dot_s(a.drop_last(), b.drop_last()).add_s(a.last().mul_s(b.last()))
    }
}

/// The divergence measure between consecutive arrays:
/// `(1/N) * (sum(curr - prev))^2`, with `N` the element count.
///
/// Deliberately not a true root-mean-square: the elementwise difference is
/// collapsed by summation *before* squaring, so opposite-signed components
/// cancel.  It is a cheap drift signal, used only by the restart heuristic.
pub open spec fn rms_spec<S: ConvFloat>(prev: Seq<S>, curr: Seq<S>) -> S {
    let d = sum_s(sub_seq(curr, prev));
    S::one_s().div_s(S::from_usize_s(curr.len() as usize)).mul_s(d.mul_s(d))
}

/// Linear combination of the first `k` rows with the first `k` coefficients,
/// accumulated left to right on top of the all-zero array of length `dim`.
pub open spec fn comb_prefix<S: ConvFloat>(rows: Seq<Seq<S>>, coef: Seq<S>, k: int, dim: nat) -> Seq<S>
    decreases k,
{
    if k <= 0 {
        zeros_seq(dim)
    } else {
        add_seq(comb_prefix(rows, coef, k - 1, dim), scale_seq(rows[k - 1], coef[k - 1]))
    }
}

/// Index of the smallest element under `lt_s`; the earliest such index on
/// ties.
pub open spec fn min_idx<S: ConvFloat>(a: Seq<S>) -> int
    decreases a.len(),
{
    if a.len() <= 1 {
        0
    } else {
        let m = min_idx(a.drop_last());
        if a.last().lt_s(a[m]) {
            a.len() - 1
        } else {
            m
        }
    }
}

pub proof fn lemma_min_idx_in_range<S: ConvFloat>(a: Seq<S>)
    requires
        a.len() > 0,
    ensures
        0 <= min_idx(a) < a.len(),
    decreases a.len(),
{
    if a.len() > 1 {
        lemma_min_idx_in_range(a.drop_last());
    }
}

pub proof fn lemma_comb_prefix_len<S: ConvFloat>(rows: Seq<Seq<S>>, coef: Seq<S>, k: int, dim: nat)
    requires
        0 <= k,
    ensures
        comb_prefix(rows, coef, k, dim).len() == dim,
    decreases k,
{
    if k > 0 {
        lemma_comb_prefix_len(rows, coef, k - 1, dim);
    }
}

// ---------------------------------------------------------------------------
// Laws of the mixing and the divergence measure.  The scalar type is
// abstract, so each law names the algebraic identities it needs of `0`, `1`
// and the operations; a floating-point implementation satisfies them on the
// values these laws are used at.
// ---------------------------------------------------------------------------

/// Law: with full mixing (`eta = 1`) a damped step returns the raw update
/// output unchanged, whenever `1 - 1 = 0`, multiplication by `0` and `1`
/// behave as annihilator and identity, and `0` is neutral for addition.
pub proof fn lemma_damp_full_eta<S: ConvFloat>(prev: Seq<S>, curr: Seq<S>)
    requires
        prev.len() == curr.len(),
        S::one_s().sub_s(S::one_s()) == S::zero_s(),
        forall|x: S| #[trigger] x.mul_s(S::zero_s()) == S::zero_s(),
        forall|x: S| #[trigger] x.mul_s(S::one_s()) == x,
        forall|x: S| #[trigger] x.add_s(S::zero_s()) == x,
    ensures
        damp_seq(S::one_s(), prev, curr) == curr,
{
    assert(damp_seq(S::one_s(), prev, curr) =~= curr);
}

/// Law: with no mixing (`eta = 0`) a damped step returns the input iterate
/// unchanged, for any update output, whenever `1 - 0 = 1`, multiplication by
/// `0` and `1` behave as annihilator and identity, and `0` is neutral for
/// addition.
pub proof fn lemma_damp_zero_eta<S: ConvFloat>(prev: Seq<S>, curr: Seq<S>)
    requires
        prev.len() == curr.len(),
        S::one_s().sub_s(S::zero_s()) == S::one_s(),
        forall|x: S| #[trigger] x.mul_s(S::zero_s()) == S::zero_s(),
        forall|x: S| #[trigger] x.mul_s(S::one_s()) == x,
        forall|x: S| #[trigger] S::zero_s().add_s(x) == x,
    ensures
        damp_seq(S::zero_s(), prev, curr) == prev,
{
    assert(damp_seq(S::zero_s(), prev, curr) =~= prev);
}

/// The sum of an all-zero array is zero, whenever `0 + 0 = 0`.
pub proof fn lemma_sum_zeros<S: ConvFloat>(a: Seq<S>)
    requires
        forall|i: int| 0 <= i < a.len() ==> a[i] == S::zero_s(),
        S::zero_s().add_s(S::zero_s()) == S::zero_s(),
    ensures
        sum_s(a) == S::zero_s(),
    decreases a.len(),
{
    if a.len() > 0 {
        lemma_sum_zeros(a.drop_last());
    }
}

/// Law: the divergence measure of identical arrays is exactly zero, whenever
/// `x - x = 0`, `0 + 0 = 0` and multiplication by `0` gives `0`.
pub proof fn lemma_rms_zero_when_equal<S: ConvFloat>(a: Seq<S>)
    requires
        forall|x: S| #[trigger] x.sub_s(x) == S::zero_s(),
        S::zero_s().add_s(S::zero_s()) == S::zero_s(),
        forall|x: S| #[trigger] x.mul_s(S::zero_s()) == S::zero_s(),
    ensures
        rms_spec(a, a) == S::zero_s(),
{
    assert(forall|i: int| 0 <= i < sub_seq(a, a).len() ==> sub_seq(a, a)[i] == S::zero_s());
    lemma_sum_zeros(sub_seq(a, a));
}

/// Law: the divergence measure is never below zero (it is a scaled square),
/// whenever squares are not below zero, products of non-negatives are not
/// below zero, and the `1/N` prefactor is not below zero.
pub proof fn lemma_rms_nonneg<S: ConvFloat>(prev: Seq<S>, curr: Seq<S>)
    requires
        forall|x: S| !(#[trigger] x.mul_s(x)).lt_s(S::zero_s()),
        forall|x: S, y: S|
            !x.lt_s(S::zero_s()) && !y.lt_s(S::zero_s()) ==> !(#[trigger] x.mul_s(y)).lt_s(
                S::zero_s(),
            ),
        !S::one_s().div_s(S::from_usize_s(curr.len() as usize)).lt_s(S::zero_s()),
    ensures
        !rms_spec(prev, curr).lt_s(S::zero_s()),
{
}

// ---------------------------------------------------------------------------
// Executable elementwise operations, each pinned to its sequence model.
// ---------------------------------------------------------------------------

/// `eta * curr + (1 - eta) * prev`, elementwise.
pub fn damp_vec<S: ConvFloat>(eta: S, prev: &Vec<S>, curr: &Vec<S>) -> (r: Vec<S>)
    requires
        prev@.len() == curr@.len(),
    ensures
        r@ == damp_seq(eta, prev@, curr@),
{
    let n = prev.len();
    let k = S::one().sub(eta);
    let mut r: Vec<S> = Vec::new();
    let mut i: usize = 0;
    while i < n
        invariant
            n == prev@.len(),
            prev@.len() == curr@.len(),
            k == S::one_s().sub_s(eta),
            i <= n,
            r@.len() == i as int,
            forall|j: int| 0 <= j < i as int ==> r@[j] == damp_s(eta, prev@[j], curr@[j]),
        decreases n - i,
    {
        r.push(curr[i].mul(eta).add(prev[i].mul(k)));
        i += 1;
    }
    proof {
        assert(r@ =~= damp_seq(eta, prev@, curr@));
    }
    r
}

/// `a - b`, elementwise.
pub fn sub_vec<S: ConvFloat>(a: &Vec<S>, b: &Vec<S>) -> (r: Vec<S>)
    requires
        a@.len() == b@.len(),
    ensures
        r@ == sub_seq(a@, b@),
{
    let n = a.len();
    let mut r: Vec<S> = Vec::new();
    let mut i: usize = 0;
    while i < n
        invariant
            n == a@.len(),
            a@.len() == b@.len(),
            i <= n,
            r@.len() == i as int,
            forall|j: int| 0 <= j < i as int ==> r@[j] == a@[j].sub_s(b@[j]),
        decreases n - i,
    {
        r.push(a[i].sub(b[i]));
        i += 1;
    }
    proof {
        assert(r@ =~= sub_seq(a@, b@));
    }
    r
}

/// `a + b`, elementwise.
pub fn add_vec<S: ConvFloat>(a: &Vec<S>, b: &Vec<S>) -> (r: Vec<S>)
    requires
        a@.len() == b@.len(),
    ensures
        r@ == add_seq(a@, b@),
{
    let n = a.len();
    let mut r: Vec<S> = Vec::new();
    let mut i: usize = 0;
    while i < n
        invariant
            n == a@.len(),
            a@.len() == b@.len(),
            i <= n,
            r@.len() == i as int,
            forall|j: int| 0 <= j < i as int ==> r@[j] == a@[j].add_s(b@[j]),
        decreases n - i,
    {
        r.push(a[i].add(b[i]));
        i += 1;
    }
    proof {
        assert(r@ =~= add_seq(a@, b@));
    }
    r
}

/// Every element of `a` multiplied by `c`.
pub fn scale_vec<S: ConvFloat>(a: &Vec<S>, c: S) -> (r: Vec<S>)
    ensures
        r@ == scale_seq(a@, c),
{
    let n = a.len();
    let mut r: Vec<S> = Vec::new();
    let mut i: usize = 0;
    while i < n
        invariant
            n == a@.len(),
            i <= n,
            r@.len() == i as int,
            forall|j: int| 0 <= j < i as int ==> r@[j] == a@[j].mul_s(c),
        decreases n - i,
    {
        r.push(a[i].mul(c));
        i += 1;
    }
    proof {
        assert(r@ =~= scale_seq(a@, c));
    }
    r
}

/// The all-zero array of length `n`.
pub fn zeros_vec<S: ConvFloat>(n: usize) -> (r: Vec<S>)
    ensures
        r@ == zeros_seq::<S>(n as nat),
{
    let z = S::zero();
    let mut r: Vec<S> = Vec::new();
    let mut i: usize = 0;
    while i < n
        invariant
            z == S::zero_s(),
            i <= n,
            r@.len() == i as int,
            forall|j: int| 0 <= j < i as int ==> r@[j] == S::zero_s(),
        decreases n - i,
    {
        r.push(z);
        i += 1;
    }
    proof {
        assert(r@ =~= zeros_seq::<S>(n as nat));
    }
    r
}

/// An element-for-element copy of `a`.
pub fn copy_vec<S: ConvFloat>(a: &Vec<S>) -> (r: Vec<S>)
    ensures
        r@ == a@,
{
    let n = a.len();
    let mut r: Vec<S> = Vec::new();
    let mut i: usize = 0;
    while i < n
        invariant
            n == a@.len(),
            i <= n,
            r@.len() == i as int,
            forall|j: int| 0 <= j < i as int ==> r@[j] == a@[j],
        decreases n - i,
    {
        r.push(a[i]);
        i += 1;
    }
    proof {
        assert(r@ =~= a@);
    }
    r
}

/// Sum of all elements, left to right.
pub fn sum_vec<S: ConvFloat>(a: &Vec<S>) -> (r: S)
    ensures
        r == sum_s(a@),
{
    let n = a.len();
    let mut acc = S::zero();
    let mut i: usize = 0;
    while i < n
        invariant
            n == a@.len(),
            i <= n,
            acc == sum_s(a@.take(i as int)),
        decreases n - i,
    {
        proof {
            assert(a@.take(i as int + 1).drop_last() =~= a@.take(i as int));
        }
        acc = acc.add(a[i]);
        i += 1;
    }
    proof {
        assert(a@.take(n as int) =~= a@);
    }
    acc
}

/// Dot product of two equal-length arrays, left to right.
pub fn dot_vec<S: ConvFloat>(a: &Vec<S>, b: &Vec<S>) -> (r: S)
    requires
        a@.len() == b@.len(),
    ensures
        r == dot_s(a@, b@),
{
    let n = a.len();
    let mut acc = S::zero();
    let mut i: usize = 0;
    while i < n
        invariant
            n == a@.len(),
            a@.len() == b@.len(),
            i <= n,
            acc == dot_s(a@.take(i as int), b@.take(i as int)),
        decreases n - i,
    {
        proof {
            assert(a@.take(i as int + 1).drop_last() =~= a@.take(i as int));
            assert(b@.take(i as int + 1).drop_last() =~= b@.take(i as int));
        }
        acc = acc.add(a[i].mul(b[i]));
        i += 1;
    }
    proof {
        assert(a@.take(n as int) =~= a@);
        assert(b@.take(n as int) =~= b@);
    }
    acc
}

/// Index of the smallest element under `lt`, earliest on ties.
pub fn min_index_vec<S: ConvFloat>(a: &Vec<S>) -> (m: usize)
    requires
        a@.len() > 0,
    ensures
        m as int == min_idx(a@),
        (m as int) < a@.len(),
{
    let n = a.len();
    let mut best: usize = 0;
    let mut i: usize = 1;
    while i < n
        invariant
            n == a@.len(),
            1 <= i <= n,
            (best as int) < i as int,
            best as int == min_idx(a@.take(i as int)),
        decreases n - i,
    {
        proof {
            assert(a@.take(i as int + 1).drop_last() =~= a@.take(i as int));
            lemma_min_idx_in_range(a@.take(i as int));
        }
        if a[i].lt(a[best]) {
            best = i;
        }
        i += 1;
    }
    proof {
        assert(a@.take(n as int) =~= a@);
    }
    best
}

} // verus!
