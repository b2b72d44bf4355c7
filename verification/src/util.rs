//! Helpers around training: joint shuffling of samples and labels, and the
//! carrier for a transformed random distribution.

use rand::seq::SliceRandom;
use rand::thread_rng;
use vstd::prelude::*;

verus! {

/// `p` lists each index below `n` exactly once.
pub open spec fn is_permutation(p: Seq<int>, n: int) -> bool {
    &&& p.len() == n
    &&& forall|i: int| 0 <= i < n ==> 0 <= #[trigger] p[i] < n
    &&& forall|i: int, j: int| 0 <= i < j < n ==> #[trigger] p[i] != #[trigger] p[j]
}

/// `out` holds the items of `src` in the order that `p` gives: position `i`
/// of `out` is position `p[i]` of `src`.
pub open spec fn rearranged<T>(src: Seq<T>, out: Seq<T>, p: Seq<int>) -> bool {
    &&& out.len() == p.len()
    &&& forall|i: int| 0 <= i < out.len() ==> #[trigger] out[i] == src[p[i]]
}

/// `rand::seq::SliceRandom::shuffle` with the generator of
/// `rand::thread_rng`: the slice is rearranged in place by swaps alone, so
/// afterwards it holds the items it held before under some permutation of the
/// positions. Which permutation is left open.
#[verifier::external_body]
fn shuffle_in_place<T>(items: &mut Vec<T>)
    ensures
        exists|p: Seq<int>|
            is_permutation(p, old(items)@.len() as int) && #[trigger] rearranged(
                old(items)@,
                final(items)@,
                p,
            ),
{
    let mut rng = thread_rng();
    items.shuffle(&mut rng);
}

/// The shorter of the two lengths: how many pairs two sequences form.
pub open spec fn pair_count<A, B>(a: Seq<A>, b: Seq<B>) -> int {
    if a.len() <= b.len() {
        a.len() as int
    } else {
        b.len() as int
    }
}

/// Reading a permutation from the far end, and counting positions from the
/// far end, gives a permutation again.
proof fn lemma_mirror_permutation(p: Seq<int>, n: int) -> (q: Seq<int>)
    requires
        is_permutation(p, n),
    ensures
        is_permutation(q, n),
        forall|m: int| 0 <= m < n ==> #[trigger] q[m] == n - 1 - p[n - 1 - m],
{
    let q = Seq::new(n as nat, |m: int| n - 1 - p[n - 1 - m]);
    assert forall|i: int, j: int| 0 <= i < j < n implies #[trigger] q[i] != #[trigger] q[j] by {
        assert(p[n - 1 - j] != p[n - 1 - i]);
    }
    assert forall|i: int| 0 <= i < n implies 0 <= #[trigger] q[i] < n by {
        assert(0 <= p[n - 1 - i] < n);
    }
    q
}

/// Shuffles two sequences jointly. The two are paired by position (items of
/// the longer one beyond the length of the shorter are dropped), the pairs
/// are put in a random order, and the two sequences are handed back in that
/// order: one permutation of the positions rearranges both, so every pair
/// occurs exactly once and stays together.
pub fn shuffle<A, B>(a: Vec<A>, b: Vec<B>) -> (r: (Vec<A>, Vec<B>))
    ensures
        exists|p: Seq<int>|
            is_permutation(p, pair_count(a@, b@)) && #[trigger] rearranged(a@, r.0@, p)
                && rearranged(b@, r.1@, p),
{
    let ghost a0 = a@;
    let ghost b0 = b@;
    let mut xs = a;
    let mut ys = b;
    let n: usize = if xs.len() <= ys.len() {
        xs.len()
    } else {
        ys.len()
    };
    xs.truncate(n);
    ys.truncate(n);
    let mut ab: Vec<(A, B)> = Vec::new();
    while xs.len() > 0
        invariant
            xs@.len() == ys@.len(),
            xs@.len() + ab@.len() == n,
            n == pair_count(a0, b0),
            forall|k: int| 0 <= k < xs@.len() ==> xs@[k] == a0[k] && ys@[k] == b0[k],
            forall|k: int|
                0 <= k < ab@.len() ==> (#[trigger] ab@[k]).0 == a0[n - 1 - k] && ab@[k].1 == b0[n
                    - 1 - k],
        decreases xs@.len(),
    {
        let x = xs.pop();
        let y = ys.pop();
        match (x, y) {
            (Some(x), Some(y)) => {
                ab.push((x, y));
            },
            _ => {},
        }
    }
    let ghost zipped = ab@;
    shuffle_in_place(&mut ab);
    let ghost p = choose|p: Seq<int>| is_permutation(p, n as int) && rearranged(zipped, ab@, p);
    let ghost mixed = ab@;
    let mut ra: Vec<A> = Vec::new();
    let mut rb: Vec<B> = Vec::new();
    while ab.len() > 0
        invariant
            ra@.len() == rb@.len(),
            ra@.len() + ab@.len() == n,
            mixed.len() == n,
            forall|k: int| 0 <= k < ab@.len() ==> ab@[k] == mixed[k],
            forall|k: int|
                0 <= k < ra@.len() ==> #[trigger] ra@[k] == mixed[n - 1 - k].0 && rb@[k] == mixed[n
                    - 1 - k].1,
        decreases ab@.len(),
    {
        match ab.pop() {
            Some((x, y)) => {
                ra.push(x);
                rb.push(y);
            },
            None => {},
        }
    }
    let r = (ra, rb);
    proof {
        let q = lemma_mirror_permutation(p, n as int);
        assert forall|m: int| 0 <= m < n implies #[trigger] r.0@[m] == a@[q[m]] by {
            let s = n - 1 - m;
            assert(mixed[s] == zipped[p[s]]);
            assert(0 <= p[s] < n);
        }
        assert forall|m: int| 0 <= m < n implies #[trigger] r.1@[m] == b@[q[m]] by {
            let s = n - 1 - m;
            assert(r.0@[m] == mixed[s].0);
            assert(mixed[s] == zipped[p[s]]);
            assert(0 <= p[s] < n);
        }
        assert(is_permutation(q, pair_count(a@, b@)) && rearranged(a@, r.0@, q) && rearranged(
            b@,
            r.1@,
            q,
        ));
    }
    r
}

/// A permutation of the positions below `n` is a bijection on them: every
/// position occurs in it, and at one place only. So where `shuffle` rearranges
/// samples and labels by one permutation, every pair of the input is found in the
/// results exactly once.
pub proof fn lemma_permutation_is_bijection(p: Seq<int>, n: int)
    requires
        is_permutation(p, n),
    ensures
        forall|j: int| 0 <= j < n ==> #[trigger] p.contains(j),
        forall|i: int, k: int|
            0 <= i < n && 0 <= k < n && #[trigger] p[i] == #[trigger] p[k] ==> i == k,
{
    let used = p.to_set();
    let all = vstd::set_lib::set_int_range(0, n);
    assert(p.no_duplicates());
    p.unique_seq_to_set();
    vstd::set_lib::lemma_int_range(0, n);
    assert(used.subset_of(all)) by {
        assert forall|v: int| used.contains(v) implies all.contains(v) by {
            let i = choose|i: int| 0 <= i < p.len() && p[i] == v;
            assert(0 <= p[i] < n);
        }
    }
    vstd::set_lib::lemma_len_subset(used, all);
    vstd::set_lib::lemma_subset_equality(used, all);
    assert forall|j: int| 0 <= j < n implies #[trigger] p.contains(j) by {
        assert(all.contains(j));
        assert(used.contains(j));
    }
    assert forall|i: int, k: int|
        0 <= i < n && 0 <= k < n && #[trigger] p[i] == #[trigger] p[k] implies i == k by {
        if i < k {
            assert(p[i] != p[k]);
        } else if k < i {
            assert(p[k] != p[i]);
        }
    }
}

/// A random distribution together with a function applied to every value
/// drawn from it.
#[derive(Clone)]
pub struct DistCustomWrap<I, F> {
    inner: I,
    f: F,
}

impl<I, F> DistCustomWrap<I, F> {
    /// The wrapped distribution.
    pub closed spec fn spec_inner(self) -> I {
        self.inner
    }

    /// The function applied to each draw.
    pub closed spec fn spec_f(self) -> F {
        self.f
    }

    /// Wraps `inner`, so that each draw from it is passed through `f`.
    pub fn new(inner: I, f: F) -> (r: Self)
        ensures
            r.spec_inner() == inner,
            r.spec_f() == f,
    {
        DistCustomWrap { inner, f }
    }

    /// The wrapped distribution.
    pub fn inner(&self) -> (r: &I)
        ensures
            *r == self.spec_inner(),
    {
        &self.inner
    }

    /// The function applied to each draw.
    pub fn f(&self) -> (r: &F)
        ensures
            *r == self.spec_f(),
    {
        &self.f
    }
}

} // verus!
