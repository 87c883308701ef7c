use vstd::prelude::*;

verus! {

/// True when bit `i` of `x` is set; false for any index outside the 16-bit
/// range, so the predicate is total.
pub open spec fn has_bit(x: u16, i: u16) -> bool {
    i < 16 && (x >> i) & 1u16 == 1u16
}

/// Number of set bits of `x` among the bit positions below `n`.
pub open spec fn popcount_below(x: u16, n: nat) -> int
    decreases n,
{
    if n == 0 {
        0
    } else {
        popcount_below(x, (n - 1) as nat) + if has_bit(x, (n - 1) as u16) {
            1int
        } else {
            0int
        }
    }
}

/// Number of set bits of `x`.
pub open spec fn popcount16(x: u16) -> int {
    popcount_below(x, 16)
}

/// The positions of the set bits of `x` below `n`, in increasing order.
pub open spec fn indices_below(x: u16, n: nat) -> Seq<usize>
    decreases n,
{
    if n == 0 {
        Seq::empty()
    } else {
        indices_below(x, (n - 1) as nat) + if has_bit(x, (n - 1) as u16) {
            seq![(n - 1) as usize]
        } else {
            Seq::empty()
        }
    }
}

/// The positions of the set bits of `x`, in increasing order.
pub open spec fn bit_indices(x: u16) -> Seq<usize> {
    indices_below(x, 16)
}

pub proof fn lemma_bit_test(x: u16, i: u16)
    by (bit_vector)
    requires
        i < 16,
    ensures
        ((x & (1u16 << i)) != 0) == has_bit(x, i),
{
}

pub proof fn lemma_bit_set(x: u16, i: u16, j: u16)
    by (bit_vector)
    requires
        i < 16,
    ensures
        has_bit(x | (1u16 << i), j) == (j == i || has_bit(x, j)),
{
}

pub proof fn lemma_bit_clear(x: u16, i: u16, j: u16)
    by (bit_vector)
    requires
        i < 16,
    ensures
        has_bit(x & !(1u16 << i), j) == (j != i && has_bit(x, j)),
{
}

pub proof fn lemma_bit_not(x: u16, j: u16)
    by (bit_vector)
    requires
        j < 16,
    ensures
        has_bit(!x, j) == !has_bit(x, j),
{
}

/// A nonzero word has a set bit.
pub proof fn lemma_nonzero_has_bit(x: u16)
    requires
        x != 0,
    ensures
        exists|j: u16| j < 16 && #[trigger] has_bit(x, j),
{
    assert(has_bit(x, 0) || has_bit(x, 1) || has_bit(x, 2) || has_bit(x, 3) || has_bit(x, 4)
        || has_bit(x, 5) || has_bit(x, 6) || has_bit(x, 7) || has_bit(x, 8) || has_bit(x, 9)
        || has_bit(x, 10) || has_bit(x, 11) || has_bit(x, 12) || has_bit(x, 13) || has_bit(x, 14)
        || has_bit(x, 15)) by (bit_vector)
        requires
            x != 0,
    ;
}

pub proof fn lemma_all_bits_of_max(j: u16)
    by (bit_vector)
    requires
        j < 16,
    ensures
        has_bit(0xFFFFu16, j),
{
}

proof fn lemma_popcount_below_set(x: u16, i: u16, n: nat)
    requires
        i < 16,
        n <= 16,
        !has_bit(x, i),
    ensures
        popcount_below(x | (1u16 << i), n) == popcount_below(x, n) + if (i as nat) < n {
            1int
        } else {
            0int
        },
    decreases n,
{
    if n > 0 {
        lemma_popcount_below_set(x, i, (n - 1) as nat);
        lemma_bit_set(x, i, (n - 1) as u16);
    }
}

pub proof fn lemma_popcount_set(x: u16, i: u16)
    requires
        i < 16,
        !has_bit(x, i),
    ensures
        popcount16(x | (1u16 << i)) == popcount16(x) + 1,
{
    lemma_popcount_below_set(x, i, 16);
}

proof fn lemma_popcount_below_clear(x: u16, i: u16, n: nat)
    requires
        i < 16,
        n <= 16,
        has_bit(x, i),
    ensures
        popcount_below(x & !(1u16 << i), n) == popcount_below(x, n) - if (i as nat) < n {
            1int
        } else {
            0int
        },
    decreases n,
{
    if n > 0 {
        lemma_popcount_below_clear(x, i, (n - 1) as nat);
        lemma_bit_clear(x, i, (n - 1) as u16);
    }
}

pub proof fn lemma_popcount_clear(x: u16, i: u16)
    requires
        i < 16,
        has_bit(x, i),
    ensures
        popcount16(x & !(1u16 << i)) == popcount16(x) - 1,
{
    lemma_popcount_below_clear(x, i, 16);
}

pub proof fn lemma_popcount_below_bounds(x: u16, n: nat)
    ensures
        0 <= popcount_below(x, n) <= n,
    decreases n,
{
    if n > 0 {
        lemma_popcount_below_bounds(x, (n - 1) as nat);
    }
}

pub proof fn lemma_popcount_bounds(x: u16)
    ensures
        0 <= popcount16(x) <= 16,
{
    lemma_popcount_below_bounds(x, 16);
}

proof fn lemma_popcount_below_zero(n: nat)
    ensures
        popcount_below(0u16, n) == 0,
    decreases n,
{
    if n > 0 {
        lemma_popcount_below_zero((n - 1) as nat);
        let j = (n - 1) as u16;
        assert(!has_bit(0u16, j)) by (bit_vector);
    }
}

pub proof fn lemma_popcount_zero()
    ensures
        popcount16(0u16) == 0,
{
    lemma_popcount_below_zero(16);
}

proof fn lemma_popcount_below_max(n: nat)
    requires
        n <= 16,
    ensures
        popcount_below(0xFFFFu16, n) == n,
    decreases n,
{
    if n > 0 {
        lemma_popcount_below_max((n - 1) as nat);
        lemma_all_bits_of_max((n - 1) as u16);
    }
}

pub proof fn lemma_popcount_max()
    ensures
        popcount16(0xFFFFu16) == 16,
{
    lemma_popcount_below_max(16);
}

proof fn lemma_popcount_below_positive(x: u16, j: u16, n: nat)
    requires
        (j as nat) < n,
        has_bit(x, j),
    ensures
        popcount_below(x, n) >= 1,
    decreases n,
{
    lemma_popcount_below_bounds(x, (n - 1) as nat);
    if (j as nat) < n - 1 {
        lemma_popcount_below_positive(x, j, (n - 1) as nat);
    }
}

/// `x` has a set bit exactly when its popcount is positive.
pub proof fn lemma_popcount_zero_iff(x: u16)
    ensures
        (popcount16(x) == 0) <==> (x == 0),
{
    if x == 0 {
        lemma_popcount_zero();
    } else {
        lemma_nonzero_has_bit(x);
        let j = choose|j: u16| j < 16 && #[trigger] has_bit(x, j);
        lemma_popcount_below_positive(x, j, 16);
    }
}

pub proof fn lemma_indices_below_len(x: u16, n: nat)
    ensures
        indices_below(x, n).len() == popcount_below(x, n),
    decreases n,
{
    if n > 0 {
        lemma_indices_below_len(x, (n - 1) as nat);
    }
}

pub proof fn lemma_bit_indices_len(x: u16)
    ensures
        bit_indices(x).len() == popcount16(x),
{
    lemma_indices_below_len(x, 16);
}

pub proof fn lemma_indices_below_sound(x: u16, n: nat)
    requires
        n <= 16,
    ensures
        forall|t: int|
            0 <= t < indices_below(x, n).len() ==> (#[trigger] indices_below(x, n)[t]) < n
                && has_bit(x, indices_below(x, n)[t] as u16),
    decreases n,
{
    if n > 0 {
        lemma_indices_below_sound(x, (n - 1) as nat);
        let pre = indices_below(x, (n - 1) as nat);
        let s = indices_below(x, n);
        assert forall|t: int| 0 <= t < s.len() implies (#[trigger] s[t]) < n && has_bit(
            x,
            s[t] as u16,
        ) by {
            if t < pre.len() {
                assert(s[t] == pre[t]);
            } else {
                assert(s[t] == (n - 1) as usize);
            }
        }
    }
}

/// Every element of `bit_indices(x)` is an in-range set bit of `x`.
pub proof fn lemma_bit_indices_sound(x: u16)
    ensures
        forall|t: int|
            0 <= t < bit_indices(x).len() ==> (#[trigger] bit_indices(x)[t]) < 16
                && has_bit(x, bit_indices(x)[t] as u16),
{
    lemma_indices_below_sound(x, 16);
}

proof fn lemma_indices_below_complete(x: u16, j: u16, n: nat)
    requires
        (j as nat) < n,
        n <= 16,
        has_bit(x, j),
    ensures
        indices_below(x, n).contains(j as usize),
    decreases n,
{
    if (j as nat) < n - 1 {
        lemma_indices_below_complete(x, j, (n - 1) as nat);
        let s = indices_below(x, (n - 1) as nat);
        let t = choose|t: int| 0 <= t < s.len() && s[t] == j as usize;
        assert(indices_below(x, n)[t] == j as usize);
    } else {
        let s = indices_below(x, n);
        assert(s[s.len() - 1] == j as usize);
    }
}

/// Every in-range set bit of `x` occurs in `bit_indices(x)`.
pub proof fn lemma_bit_indices_complete(x: u16, j: u16)
    requires
        j < 16,
        has_bit(x, j),
    ensures
        bit_indices(x).contains(j as usize),
{
    lemma_indices_below_complete(x, j, 16);
}

/// Counts the set bits of `x`.
pub fn popcount(x: u16) -> (r: usize)
    ensures
        r == popcount16(x),
{
    let mut r: usize = 0;
    let mut i: u16 = 0;
    while i < 16
        invariant
            i <= 16,
            r == popcount_below(x, i as nat),
        decreases 16 - i,
    {
        proof {
            lemma_bit_test(x, i);
            lemma_popcount_below_bounds(x, i as nat);
        }
        if x & (1u16 << i) != 0 {
            r = r + 1;
        }
        i = i + 1;
    }
    r
}

/// Collects the positions of the set bits of `x`, in increasing order.
pub fn collect_bit_indices(x: u16) -> (r: Vec<usize>)
    ensures
        r@ == bit_indices(x),
{
    let mut r: Vec<usize> = Vec::new();
    let mut i: u16 = 0;
    while i < 16
        invariant
            i <= 16,
            r@ == indices_below(x, i as nat),
        decreases 16 - i,
    {
        proof {
            lemma_bit_test(x, i);
        }
        if x & (1u16 << i) != 0 {
            r.push(i as usize);
            proof {
                assert(r@ =~= indices_below(x, (i + 1) as nat));
            }
        } else {
            proof {
                assert(r@ =~= indices_below(x, (i + 1) as nat));
            }
        }
        i = i + 1;
    }
    r
}

} // verus!
