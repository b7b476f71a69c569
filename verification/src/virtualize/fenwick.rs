//! Fenwick (binary indexed) tree over signed per-item values, with its proof.

use vstd::prelude::*;

verus! {

/// Largest magnitude of one stored value: a difference between two `u16` extents.
pub const VALUE_BOUND: i64 = 65535;

/// Sum of `s[lo..hi)`.
pub open spec fn seq_sum(s: Seq<int>, lo: int, hi: int) -> int
    decreases hi - lo,
{
    if hi <= lo {
        0
    } else {
        seq_sum(s, lo, hi - 1) + s[hi - 1]
    }
}

/// The lowest set bit of `p`: the length of the value run tree entry `p` sums.
pub open spec fn lowbit(p: usize) -> usize {
    p & ((!p + 1) as usize)
}

pub proof fn lemma_sum_split(s: Seq<int>, a: int, b: int, c: int)
    requires
        a <= b <= c,
    ensures
        seq_sum(s, a, c) == seq_sum(s, a, b) + seq_sum(s, b, c),
    decreases c - b,
{
    if c > b {
        lemma_sum_split(s, a, b, c - 1);
    }
}

pub proof fn lemma_sum_update(s: Seq<int>, i: int, v: int, a: int, b: int)
    requires
        0 <= i < s.len(),
        0 <= a,
        b <= s.len(),
    ensures
        seq_sum(s.update(i, v), a, b) == seq_sum(s, a, b) + (if a <= i < b { v - s[i] } else { 0 }),
    decreases b - a,
{
    if b > a {
        lemma_sum_update(s, i, v, a, b - 1);
    }
}

pub proof fn lemma_sum_bound(s: Seq<int>, a: int, b: int, m: int)
    requires
        0 <= a <= b <= s.len(),
        0 <= m,
        forall|k: int| 0 <= k < s.len() ==> -m <= #[trigger] s[k] <= m,
    ensures
        -((b - a) * m) <= seq_sum(s, a, b) <= (b - a) * m,
    decreases b - a,
{
    if b > a {
        lemma_sum_bound(s, a, b - 1, m);
        assert(-m <= s[b - 1] <= m);
        assert((b - a) * m == (b - 1 - a) * m + m) by (nonlinear_arith);
        assert(seq_sum(s, a, b) == seq_sum(s, a, b - 1) + s[b - 1]);
    }
}

pub proof fn lemma_sum_zero(s: Seq<int>, a: int, b: int)
    requires
        0 <= a,
        b <= s.len(),
        forall|k: int| 0 <= k < s.len() ==> #[trigger] s[k] == 0,
    ensures
        seq_sum(s, a, b) == 0,
    decreases b - a,
{
    if b > a {
        lemma_sum_zero(s, a, b - 1);
    }
}

proof fn lemma_lowbit_range(p: usize)
    requires
        p > 0,
    ensures
        1 <= lowbit(p) <= p,
{
    assert(p > 0 ==> 1 <= p & ((!p + 1) as usize) && p & ((!p + 1) as usize) <= p) by (bit_vector);
}

/// Positions strictly between `p` and the next position `add` visits cover only items
/// at or after `p`.
proof fn lemma_lowbit_between(p: usize, q: usize)
    requires
        p > 0,
        p < q,
        q < p + lowbit(p),
        p + lowbit(p) <= usize::MAX,
    ensures
        lowbit(q) <= q - p,
{
    assert(((p + lowbit(p)) as usize) == p + lowbit(p));
    assert(p > 0 && p < q && q < p + (p & ((!p + 1) as usize)) && ((p + (p & ((!p + 1)
        as usize))) as usize) == p + (p & ((!p + 1) as usize)) ==> (q & ((!q + 1) as usize)) <= q
        - p) by (bit_vector);
}

/// The next position `add` visits covers at least twice the run of the current one.
proof fn lemma_lowbit_next(p: usize)
    requires
        p > 0,
        p + lowbit(p) <= usize::MAX,
    ensures
        lowbit((p + lowbit(p)) as usize) >= 2 * lowbit(p),
{
    assert(((p + lowbit(p)) as usize) == p + lowbit(p));
    assert(p > 0 && ((p + (p & ((!p + 1) as usize))) as usize) == p + (p & ((!p + 1) as usize))
        ==> ((p + (p & ((!p + 1) as usize))) as usize) & ((!((p + (p & ((!p + 1) as usize)))
        as usize) + 1) as usize) >= 2 * (p & ((!p + 1) as usize))) by (bit_vector);
}

fn lowbit_of(p: usize) -> (r: usize)
    requires
        p > 0,
    ensures
        r == lowbit(p),
{
    assert(p > 0 ==> ((!p + 1) as usize) == !p + 1) by (bit_vector);
    p & ((!p) + 1)
}

/// Fenwick (binary indexed) tree over signed per-item values.
#[derive(Clone)]
pub struct Fenwick {
    /// One-indexed partial sums; entry 0 is unused.
    tree: Vec<i64>,
    /// The per-item values the partial sums are taken over.
    values: Ghost<Seq<int>>,
}

impl Fenwick {
    /// The per-item values.
    pub closed spec fn values(&self) -> Seq<int> {
        self.values@
    }

    /// The largest collection whose sums stay exact in `i64` and whose positions
    /// never overflow while walking the tree.
    pub open spec fn fits(count: int) -> bool {
        &&& count * (VALUE_BOUND as int) <= i64::MAX
        &&& 2 * (count + 1) <= usize::MAX
    }

    pub closed spec fn wf(&self) -> bool {
        let n = self.values@.len();
        &&& self.tree@.len() == n + 1
        &&& Self::fits(n as int)
        &&& forall|k: int| 0 <= k < n ==> -VALUE_BOUND <= #[trigger] self.values@[k] <= VALUE_BOUND
        &&& forall|p: usize|
            1 <= p <= n ==> #[trigger] self.tree@[p as int] == seq_sum(
                self.values@,
                p - lowbit(p),
                p as int,
            )
    }

    pub proof fn lemma_wf_fits(&self)
        requires
            self.wf(),
        ensures
            Self::fits(self.values().len() as int),
            forall|k: int| 0 <= k < self.values().len() ==> -VALUE_BOUND <= #[trigger] self.values()[k] <= VALUE_BOUND,
    {
    }

    /// A tree of `count` zero values.
    pub fn new(count: usize) -> (fenwick: Self)
        requires
            Self::fits(count as int),
        ensures
            fenwick.wf(),
            fenwick.values() == Seq::new(count as nat, |k: int| 0int),
    {
        let ghost values = Seq::new(count as nat, |k: int| 0int);
        let tree: Vec<i64> = vec![0i64; count + 1];
        let fenwick = Fenwick { tree, values: Ghost(values) };
        assert forall|p: usize| 1 <= p <= count implies #[trigger] fenwick.tree@[p as int]
            == seq_sum(values, p - lowbit(p), p as int) by {
            lemma_lowbit_range(p);
            lemma_sum_zero(values, p - lowbit(p), p as int);
        }
        fenwick
    }

    /// Number of values.
    pub fn len(&self) -> (n: usize)
        requires
            self.wf(),
        ensures
            n == self.values().len(),
    {
        self.tree.len() - 1
    }

    /// Add `delta` to the value at `index`.
    pub fn add(&mut self, index: usize, delta: i64)
        requires
            old(self).wf(),
            index < old(self).values().len(),
            -VALUE_BOUND <= old(self).values()[index as int] + delta <= VALUE_BOUND,
        ensures
            final(self).wf(),
            final(self).values() == old(self).values().update(
                index as int,
                old(self).values()[index as int] + delta,
            ),
    {
        let ghost old_values = self.values@;
        let ghost n = old_values.len();
        let ghost new_values = old_values.update(index as int, old_values[index as int] + delta);
        proof {
            assert forall|k: int| 0 <= k < n implies -VALUE_BOUND <= #[trigger] new_values[k]
                <= VALUE_BOUND by {}
        }
        proof {
            lemma_lowbit_range((index + 1) as usize);
            assert forall|q: usize| 1 <= q <= n && q < index + 1 implies #[trigger] self.tree@[q as int]
                == seq_sum(new_values, q - lowbit(q), q as int) by {
                lemma_lowbit_range(q);
                lemma_sum_update(old_values, index as int, new_values[index as int], q - lowbit(q), q as int);
            }
        }
        let mut position = index + 1;
        while position < self.tree.len()
            invariant
                self.tree@.len() == n + 1,
                self.values@ == old_values,
                n == old_values.len(),
                Self::fits(n as int),
                new_values == old_values.update(index as int, old_values[index as int] + delta),
                index < n,
                forall|k: int| 0 <= k < n ==> -VALUE_BOUND <= #[trigger] new_values[k] <= VALUE_BOUND,
                index + 1 <= position,
                position <= 2 * (n + 1),
                position - lowbit(position) <= index,
                forall|q: usize|
                    1 <= q <= n && q < position ==> #[trigger] self.tree@[q as int] == seq_sum(
                        new_values,
                        q - lowbit(q),
                        q as int,
                    ),
                forall|q: usize|
                    1 <= q <= n && q >= position ==> #[trigger] self.tree@[q as int] == seq_sum(
                        old_values,
                        q - lowbit(q),
                        q as int,
                    ),
            decreases 2 * (n + 1) - position,
        {
            let ghost p = position;
            proof {
                lemma_lowbit_range(p);
                lemma_sum_update(old_values, index as int, new_values[index as int], p - lowbit(p), p as int);
                lemma_sum_bound(new_values, p - lowbit(p), p as int, VALUE_BOUND as int);
                assert(lowbit(p) * VALUE_BOUND <= n * VALUE_BOUND) by (nonlinear_arith)
                    requires lowbit(p) <= n;
            }
            let current = self.tree[position];
            self.tree.set(position, current + delta);
            let step = lowbit_of(position);
            proof {
                lemma_lowbit_next(p);
                assert forall|q: usize| 1 <= q <= n && q < p + step implies #[trigger] self.tree@[q as int]
                    == seq_sum(new_values, q - lowbit(q), q as int) by {
                    if q > p {
                        lemma_lowbit_between(p, q);
                        lemma_lowbit_range(q);
                        lemma_sum_update(old_values, index as int, new_values[index as int], q - lowbit(q), q as int);
                    }
                }
            }
            position = position + step;
        }
        self.values = Ghost(new_values);
    }

    /// Sum of the first `index` values.
    pub fn prefix_sum(&self, index: usize) -> (sum: i64)
        requires
            self.wf(),
        ensures
            sum == seq_sum(self.values(), 0, if index < self.values().len() { index as int } else { self.values().len() as int }),
    {
        let n = self.len();
        let target = if index < n { index } else { n };
        let mut position = target;
        let mut sum: i64 = 0;
        while position > 0
            invariant
                self.wf(),
                n == self.values().len(),
                target <= n,
                position <= target,
                sum == seq_sum(self.values(), position as int, target as int),
            decreases position,
        {
            let ghost p = position;
            proof {
                lemma_lowbit_range(p);
                lemma_sum_split(self.values(), p - lowbit(p), p as int, target as int);
                lemma_sum_bound(self.values(), p - lowbit(p), target as int, VALUE_BOUND as int);
                assert((target - (p - lowbit(p))) * VALUE_BOUND <= n * VALUE_BOUND) by (nonlinear_arith)
                    requires target - (p - lowbit(p)) <= n;
            }
            sum = sum + self.tree[position];
            position = position - lowbit_of(position);
        }
        sum
    }
}

} // verus!
