//! The Collatz transition on natural numbers, the orbit of a number under it, and what it
//! means for a sequence of numbers to be a finished Collatz sequence.

use vstd::prelude::*;

verus! {

/// One Collatz transition: an odd value is tripled and incremented, an even value is halved.
pub open spec fn collatz_next(n: nat) -> nat {
    if n % 2 == 1 {
        3 * n + 1
    } else {
        n / 2
    }
}

/// The value that stands `k` transitions after `n`.
pub open spec fn orbit(n: nat, k: nat) -> nat
    decreases k,
{
    if k == 0 {
        n
    } else {
        collatz_next(orbit(n, (k - 1) as nat))
    }
}

/// No point of the orbit of `n` at a positive index below `bound` is 1.
pub open spec fn misses_one_before(n: nat, bound: nat) -> bool {
    forall|j: nat| 1 <= j < bound ==> orbit(n, j) != 1
}

/// `k` is the first positive index at which the orbit of `n` stands at 1.
pub open spec fn first_hit(n: nat, k: nat) -> bool {
    &&& k >= 1
    &&& orbit(n, k) == 1
    &&& misses_one_before(n, k)
}

/// The orbit of `n` from index 0 up to and including index `k`.
pub open spec fn trajectory(n: nat, k: nat) -> Seq<nat> {
    Seq::new(k + 1, |i: int| orbit(n, i as nat))
}

/// Every element but the first is the Collatz successor of the element before it.
pub open spec fn is_chain(s: Seq<nat>) -> bool {
    forall|i: int| 0 <= i < s.len() - 1 ==> #[trigger] s[i + 1] == collatz_next(s[i])
}

/// `s` is a finished Collatz sequence of `n`: it starts at `n`, moves by single transitions,
/// ends at 1, and holds no 1 strictly between its two ends.
pub open spec fn is_collatz_sequence(s: Seq<nat>, n: nat) -> bool {
    &&& s.len() >= 2
    &&& s[0] == n
    &&& is_chain(s)
    &&& s.last() == 1
    &&& forall|i: int| 0 < i < s.len() - 1 ==> s[i] != 1
}

/// Walking `b` transitions from the point reached after `a` transitions is walking `a + b`.
pub proof fn lemma_orbit_add(n: nat, a: nat, b: nat)
    ensures
        orbit(orbit(n, a), b) == orbit(n, a + b),
    decreases b,
{
    if b > 0 {
        lemma_orbit_add(n, a, (b - 1) as nat);
    }
}

/// A trajectory that stops at the first hit of 1 is a finished Collatz sequence.
pub proof fn lemma_trajectory_is_collatz_sequence(n: nat, k: nat)
    requires
        first_hit(n, k),
    ensures
        is_collatz_sequence(trajectory(n, k), n),
{
    let s = trajectory(n, k);
    assert forall|i: int| 0 <= i < s.len() - 1 implies #[trigger] s[i + 1] == collatz_next(s[i]) by {
        assert(orbit(n, (i + 1) as nat) == collatz_next(orbit(n, i as nat)));
    }
    assert forall|i: int| 0 < i < s.len() - 1 implies s[i] != 1 by {
        assert(orbit(n, i as nat) != 1);
    }
}

/// A chain that starts at `n` is a stretch of the orbit of `n`.
pub proof fn lemma_chain_follows_orbit(s: Seq<nat>, n: nat, i: int)
    requires
        is_chain(s),
        s.len() > 0,
        s[0] == n,
        0 <= i < s.len(),
    ensures
        s[i] == orbit(n, i as nat),
    decreases i,
{
    if i > 0 {
        lemma_chain_follows_orbit(s, n, i - 1);
        assert(s[(i - 1) + 1] == collatz_next(s[i - 1]));
    }
}

/// A finished Collatz sequence of `n` is the trajectory of `n` up to its first hit of 1.
pub proof fn lemma_collatz_sequence_is_trajectory(s: Seq<nat>, n: nat)
    requires
        is_collatz_sequence(s, n),
    ensures
        first_hit(n, (s.len() - 1) as nat),
        s == trajectory(n, (s.len() - 1) as nat),
{
    let k = (s.len() - 1) as nat;
    assert forall|i: int| 0 <= i < s.len() implies s[i] == orbit(n, i as nat) by {
        lemma_chain_follows_orbit(s, n, i);
    }
    assert forall|j: nat| 1 <= j < k implies orbit(n, j) != 1 by {
        assert(s[j as int] != 1);
    }
    assert(s =~= trajectory(n, k));
}

/// The first hit of 1 is unique.
pub proof fn lemma_first_hit_unique(n: nat, a: nat, b: nat)
    requires
        first_hit(n, a),
        first_hit(n, b),
    ensures
        a == b,
{
    if a < b {
        assert(orbit(n, a) != 1);
    } else if b < a {
        assert(orbit(n, b) != 1);
    }
}

/// A start value has at most one finished Collatz sequence.
pub proof fn lemma_collatz_sequence_unique(s: Seq<nat>, t: Seq<nat>, n: nat)
    requires
        is_collatz_sequence(s, n),
        is_collatz_sequence(t, n),
    ensures
        s == t,
{
    lemma_collatz_sequence_is_trajectory(s, n);
    lemma_collatz_sequence_is_trajectory(t, n);
    lemma_first_hit_unique(n, (s.len() - 1) as nat, (t.len() - 1) as nat);
}

} // verus!
