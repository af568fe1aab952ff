//! Permutations presented as successor arrays, and the cycle structure that
//! repeated swapping produces.
//!
//! A sequence `c` of length `n` with values in `[0, n)` is read as a
//! functional graph: cell `k` points at cell `c[k]`. [iterate] follows that
//! graph. The lemmas here show that the swapping schedule used by
//! [crate::chase::PointerMaze::shuffle] — walk `i` from `n - 1` down to `1`
//! and swap the successors of `i` and of some `j < i` — always produces one
//! single cycle through all `n` cells.

use vstd::prelude::*;
use vstd::set_lib::lemma_len_subset;
use vstd::set_lib::lemma_int_range;
use vstd::set_lib::set_int_range;

verus! {

/// Every cell points at a cell of the array.
pub open spec fn in_range(c: Seq<int>, n: int) -> bool {
    c.len() == n && (forall|k: int| 0 <= k < n ==> 0 <= #[trigger] c[k] < n)
}

/// No two cells point at the same cell.
pub open spec fn injective(c: Seq<int>) -> bool {
    forall|a: int, b: int|
        0 <= a < c.len() && 0 <= b < c.len() && #[trigger] c[a] == #[trigger] c[b] ==> a == b
}

/// A permutation of the cells `0` to `n - 1`, as a successor array.
pub open spec fn is_perm(c: Seq<int>, n: int) -> bool {
    in_range(c, n) && injective(c)
}

/// The cell reached from `k` after `m` successor steps.
pub open spec fn iterate(c: Seq<int>, k: int, m: nat) -> int
    decreases m,
{
    if m == 0 {
        k
    } else {
        c[iterate(c, k, (m - 1) as nat)]
    }
}

/// The identity successor array: every cell points at itself.
pub open spec fn identity(n: int) -> Seq<int> {
    Seq::new(n as nat, |k: int| k)
}

/// Following `m` steps from `k` lands at a cell `t <= b`, with every earlier
/// cell of the walk above `b`.
pub open spec fn first_reach(c: Seq<int>, k: int, b: int, m: nat) -> bool {
    iterate(c, k, m) <= b && (forall|u: nat| u < m ==> #[trigger] iterate(c, k, u) > b)
}

/// The walk from `a` comes back to `a` after `m + 1` steps and stays above
/// `b` in between: `a` is the only cell `<= b` on its own cycle.
pub open spec fn returns_avoiding(c: Seq<int>, a: int, b: int, m: nat) -> bool {
    iterate(c, a, (m + 1) as nat) == a && (forall|u: nat|
        1 <= u <= m ==> #[trigger] iterate(c, a, u) > b)
}

/// Some walk from `k` reaches a cell `<= b` without passing one first.
pub open spec fn reaches_low(c: Seq<int>, k: int, b: int) -> bool {
    exists|m: nat| first_reach(c, k, b, m)
}

/// `a` comes back to itself while avoiding every other cell `<= b`.
pub open spec fn lone_low(c: Seq<int>, a: int, b: int) -> bool {
    exists|m: nat| returns_avoiding(c, a, b, m)
}

/// The invariant of the swapping schedule with `b` the next index to be
/// processed: the array is a permutation, every cell's walk reaches a cell
/// `<= b`, and each cell `<= b` is the only such cell on its own cycle.
/// Together these say that the cycles of `c` partition the cells so that
/// every cycle holds exactly one cell `<= b`.
pub open spec fn sattolo_inv(c: Seq<int>, n: int, b: int) -> bool {
    &&& is_perm(c, n)
    &&& 0 <= b < n
    &&& forall|k: int| 0 <= k < n ==> #[trigger] reaches_low(c, k, b)
    &&& forall|a: int| 0 <= a <= b ==> #[trigger] lone_low(c, a, b)
}

/// A walk from inside the array stays inside the array.
pub proof fn lemma_iterate_in_range(c: Seq<int>, n: int, k: int, m: nat)
    requires
        in_range(c, n),
        0 <= k < n,
    ensures
        0 <= iterate(c, k, m) < n,
    decreases m,
{
    if m > 0 {
        lemma_iterate_in_range(c, n, k, (m - 1) as nat);
    }
}

/// Walking `a + b` steps is walking `a` steps and then `b` more.
pub proof fn lemma_iterate_add(c: Seq<int>, k: int, a: nat, b: nat)
    ensures
        iterate(c, k, a + b) == iterate(c, iterate(c, k, a), b),
    decreases b,
{
    if b > 0 {
        lemma_iterate_add(c, k, a, (b - 1) as nat);
        assert(iterate(c, k, a + b) == c[iterate(c, k, (a + b - 1) as nat)]);
    }
}

/// Walks in the identity array go nowhere.
pub proof fn lemma_iterate_identity(n: int, k: int, m: nat)
    requires
        0 <= k < n,
    ensures
        iterate(identity(n), k, m) == k,
    decreases m,
{
    if m > 0 {
        lemma_iterate_identity(n, k, (m - 1) as nat);
    }
}

/// Before any swap the invariant holds with `b = n - 1`: every cell is the
/// lone cell of its own one-cell cycle.
pub proof fn lemma_sattolo_init(n: int)
    requires
        n >= 1,
    ensures
        sattolo_inv(identity(n), n, n - 1),
{
    let c = identity(n);
    assert forall|k: int| 0 <= k < n implies #[trigger] reaches_low(c, k, n - 1) by {
        assert(iterate(c, k, 0) == k);
        assert(first_reach(c, k, n - 1, 0));
    }
    assert forall|a: int| 0 <= a <= n - 1 implies #[trigger] lone_low(c, a, n - 1) by {
        assert(iterate(c, a, 1) == a) by {
            lemma_iterate_identity(n, a, 1);
        }
        assert(returns_avoiding(c, a, n - 1, 0));
    }
}

/// A walk that never steps out of the cells where two arrays agree is the
/// same walk in both arrays.
proof fn lemma_iterate_transfer(
    c: Seq<int>,
    c2: Seq<int>,
    n: int,
    i: int,
    j: int,
    k: int,
    m: nat,
)
    requires
        in_range(c, n),
        c2.len() == n,
        forall|x: int| 0 <= x < n && x != i && x != j ==> c2[x] == c[x],
        0 <= k < n,
        forall|u: nat| u < m ==> #[trigger] iterate(c, k, u) != i && iterate(c, k, u) != j,
    ensures
        iterate(c2, k, m) == iterate(c, k, m),
    decreases m,
{
    if m > 0 {
        lemma_iterate_transfer(c, c2, n, i, j, k, (m - 1) as nat);
        lemma_iterate_in_range(c, n, k, (m - 1) as nat);
        assert(iterate(c, k, (m - 1) as nat) != i && iterate(c, k, (m - 1) as nat) != j);
    }
}

/// Stepping out of a swapped cell `x` whose successor was taken from `y`
/// continues along the old walk of `y`, as long as that walk keeps clear of
/// the two swapped cells.
proof fn lemma_swapped_start(
    c: Seq<int>,
    c2: Seq<int>,
    n: int,
    i: int,
    j: int,
    x: int,
    y: int,
    v: nat,
)
    requires
        in_range(c, n),
        c2.len() == n,
        forall|z: int| 0 <= z < n && z != i && z != j ==> c2[z] == c[z],
        0 <= x < n,
        0 <= y < n,
        c2[x] == c[y],
        v >= 1,
        forall|u: nat| 1 <= u < v ==> #[trigger] iterate(c, y, u) != i && iterate(c, y, u) != j,
    ensures
        iterate(c2, x, v) == iterate(c, y, v),
{
    let w = (v - 1) as nat;
    lemma_iterate_add(c2, x, 1, w);
    assert(iterate(c2, x, 0) == x);
    assert(iterate(c2, x, 1) == c2[x]);
    assert forall|t: nat| t < w implies #[trigger] iterate(c, c[y], t) != i && iterate(c, c[y], t)
        != j by {
        lemma_iterate_add(c, y, 1, t);
        assert(iterate(c, y, 0) == y);
        assert(iterate(c, y, 1) == c[y]);
        assert(iterate(c, y, 1 + t) == iterate(c, c[y], t));
        assert(1 <= 1 + t < v);
        assert(iterate(c, y, (1 + t) as nat) != i && iterate(c, y, (1 + t) as nat) != j);
    }
    lemma_iterate_transfer(c, c2, n, i, j, c[y], w);
    lemma_iterate_add(c, y, 1, w);
    assert(iterate(c, y, 0) == y);
    assert(iterate(c, y, 1) == c[y]);
}

/// Swapping the successors of two cells of a permutation leaves a
/// permutation.
proof fn lemma_swap_is_perm(c: Seq<int>, c2: Seq<int>, n: int, i: int, j: int)
    requires
        is_perm(c, n),
        0 <= j < i < n,
        c2 == c.update(i, c[j]).update(j, c[i]),
    ensures
        is_perm(c2, n),
        c2[i] == c[j],
        c2[j] == c[i],
        forall|z: int| 0 <= z < n && z != i && z != j ==> c2[z] == c[z],
{
    assert(in_range(c2, n));
    assert forall|a: int, b: int|
        0 <= a < c2.len() && 0 <= b < c2.len() && #[trigger] c2[a] == #[trigger] c2[b] implies a
        == b by {
        let a0: int = if a == i {
            j
        } else if a == j {
            i
        } else {
            a
        };
        let b0: int = if b == i {
            j
        } else if b == j {
            i
        } else {
            b
        };
        assert(c2[a] == c[a0]);
        assert(c2[b] == c[b0]);
        assert(a0 == b0);
    }
}

/// One swap of the schedule: if every cycle holds exactly one cell `<= i`
/// and the successors of `i` and of `j < i` are exchanged, the cycles of `i`
/// and of `j` merge, and every cycle of the result holds exactly one cell
/// `<= i - 1`.
pub proof fn lemma_sattolo_step(c: Seq<int>, n: int, i: int, j: int)
    requires
        sattolo_inv(c, n, i),
        1 <= i < n,
        0 <= j < i,
    ensures
        sattolo_inv(c.update(i, c[j]).update(j, c[i]), n, i - 1),
{
    let c2 = c.update(i, c[j]).update(j, c[i]);
    lemma_swap_is_perm(c, c2, n, i, j);

    // Witnesses for the old cycles of i and of j.
    assert(lone_low(c, i, i));
    assert(lone_low(c, j, i));
    let mi = choose|m: nat| returns_avoiding(c, i, i, m);
    let mj = choose|m: nat| returns_avoiding(c, j, i, m);
    assert(returns_avoiding(c, i, i, mi));
    assert(returns_avoiding(c, j, i, mj));

    // After the swap, the walk out of i follows the old cycle of j:
    // iterate(c2, i, v) == iterate(c, j, v) for 1 <= v <= mj + 1.
    assert forall|v: nat| 1 <= v <= mj + 1 implies #[trigger] iterate(c2, i, v) == iterate(
        c,
        j,
        v,
    ) by {
        assert forall|u: nat| 1 <= u < v implies #[trigger] iterate(c, j, u) != i && iterate(
            c,
            j,
            u,
        ) != j by {
            assert(iterate(c, j, u) > i);
        }
        lemma_swapped_start(c, c2, n, i, j, i, j, v);
    }
    // Symmetrically the walk out of j follows the old cycle of i.
    assert forall|v: nat| 1 <= v <= mi + 1 implies #[trigger] iterate(c2, j, v) == iterate(
        c,
        i,
        v,
    ) by {
        assert forall|u: nat| 1 <= u < v implies #[trigger] iterate(c, i, u) != i && iterate(
            c,
            i,
            u,
        ) != j by {
            assert(iterate(c, i, u) > i);
        }
        lemma_swapped_start(c, c2, n, i, j, j, i, v);
    }
    assert(iterate(c2, i, (mj + 1) as nat) == j);
    assert(iterate(c2, j, (mi + 1) as nat) == i);

    // Each cell a <= i - 1 is still the lone low cell of its cycle.
    assert forall|a: int| 0 <= a <= i - 1 implies #[trigger] lone_low(c2, a, i - 1) by {
        if a == j {
            // The merged cycle: j -> old cycle of i -> i -> old cycle of j -> j.
            let m2 = (mi + 1 + mj) as nat;
            assert forall|v: nat| 1 <= v <= mj + 1 implies #[trigger] iterate(
                c2,
                j,
                (mi + 1 + v) as nat,
            ) == iterate(c, j, v) by {
                lemma_iterate_add(c2, j, (mi + 1) as nat, v);
            }
            assert(iterate(c2, j, (mi + 1 + (mj + 1)) as nat) == iterate(c, j, (mj + 1) as nat));
            assert((mi + 1 + (mj + 1)) as nat == (m2 + 1) as nat);
            assert(iterate(c2, j, (m2 + 1) as nat) == j);
            assert forall|u: nat| 1 <= u <= m2 implies #[trigger] iterate(c2, j, u) > i - 1 by {
                if u <= mi {
                    assert(iterate(c2, j, u) == iterate(c, i, u));
                    assert(iterate(c, i, u) > i);
                } else if u == mi + 1 {
                    assert(iterate(c2, j, u) == i);
                } else {
                    let v = (u - (mi + 1)) as nat;
                    assert(1 <= v <= mj);
                    assert(iterate(c2, j, (mi + 1 + v) as nat) == iterate(c, j, v));
                    assert(iterate(c, j, v) > i);
                }
            }
            assert(returns_avoiding(c2, j, i - 1, m2));
        } else {
            // An untouched cycle: transfer the old walk unchanged.
            assert(lone_low(c, a, i));
            let ma = choose|m: nat| returns_avoiding(c, a, i, m);
            assert(returns_avoiding(c, a, i, ma));
            assert forall|u: nat| u < ma + 1 implies #[trigger] iterate(c, a, u) != i && iterate(
                c,
                a,
                u,
            ) != j by {
                if u == 0 {
                } else {
                    assert(iterate(c, a, u) > i);
                }
            }
            assert forall|u: nat| u <= ma + 1 implies #[trigger] iterate(c2, a, u) == iterate(
                c,
                a,
                u,
            ) by {
                lemma_iterate_transfer(c, c2, n, i, j, a, u);
            }
            assert(iterate(c2, a, (ma + 1) as nat) == a);
            assert forall|u: nat| 1 <= u <= ma implies #[trigger] iterate(c2, a, u) > i - 1 by {
                assert(iterate(c2, a, u) == iterate(c, a, u));
                assert(iterate(c, a, u) > i);
            }
            assert(returns_avoiding(c2, a, i - 1, ma));
        }
    }

    // Every cell still reaches a low cell.
    assert forall|k: int| 0 <= k < n implies #[trigger] reaches_low(c2, k, i - 1) by {
        assert(reaches_low(c, k, i));
        let mk = choose|m: nat| first_reach(c, k, i, m);
        assert(first_reach(c, k, i, mk));
        let t = iterate(c, k, mk);
        // The walk from j's old cell reaches j, used whenever a walk lands on i.
        assert forall|v: nat| 1 <= v <= mj + 1 implies #[trigger] iterate(c2, i, v) > i - 1
            || iterate(c2, i, v) == j by {
            assert(iterate(c2, i, v) == iterate(c, j, v));
            if v <= mj {
                assert(iterate(c, j, v) > i);
            }
        }
        if mk == 0 {
            if k <= i - 1 {
                assert(first_reach(c2, k, i - 1, 0));
            } else {
                // k == i: continue into the old cycle of j and stop at j.
                assert(k == i);
                assert(iterate(c2, i, (mj + 1) as nat) == j);
                assert forall|u: nat| u < mj + 1 implies #[trigger] iterate(c2, i, u) > i - 1 by {
                    if u == 0 {
                    } else {
                        assert(iterate(c2, i, u) == iterate(c, j, u));
                        assert(iterate(c, j, u) > i);
                    }
                }
                assert(first_reach(c2, i, i - 1, (mj + 1) as nat));
            }
        } else {
            // The walk stays above i until mk, so it transfers unchanged.
            assert forall|u: nat| u < mk implies #[trigger] iterate(c, k, u) != i && iterate(
                c,
                k,
                u,
            ) != j by {
                assert(iterate(c, k, u) > i);
            }
            assert forall|u: nat| u <= mk implies #[trigger] iterate(c2, k, u) == iterate(
                c,
                k,
                u,
            ) by {
                lemma_iterate_transfer(c, c2, n, i, j, k, u);
            }
            if t <= i - 1 {
                assert(first_reach(c2, k, i - 1, mk));
            } else {
                // The walk lands on i: continue to j as above.
                assert(t == i);
                assert forall|v: nat| v <= mj + 1 implies #[trigger] iterate(c2, k, (mk + v) as nat)
                    == iterate(c2, i, v) by {
                    lemma_iterate_add(c2, k, mk, v);
                }
                assert(iterate(c2, k, (mk + (mj + 1)) as nat) == iterate(c2, i, (mj + 1) as nat));
                assert((mk + (mj + 1)) as nat == (mk + mj + 1) as nat);
                assert(iterate(c2, k, (mk + mj + 1) as nat) == j);
                assert forall|u: nat| u < mk + mj + 1 implies #[trigger] iterate(c2, k, u) > i
                    - 1 by {
                    if u < mk {
                        assert(iterate(c2, k, u) == iterate(c, k, u));
                        assert(iterate(c, k, u) > i);
                    } else if u == mk {
                        assert(iterate(c2, k, u) == i);
                    } else {
                        let v = (u - mk) as nat;
                        assert(1 <= v <= mj);
                        assert(iterate(c2, k, (mk + v) as nat) == iterate(c2, i, v));
                        assert(iterate(c2, i, v) == iterate(c, j, v));
                        assert(iterate(c, j, v) > i);
                    }
                }
                assert(first_reach(c2, k, i - 1, (mk + mj + 1) as nat));
            }
        }
    }
}

/// Walking the same number of steps from two cells to the same place means
/// the two cells were the same: successor steps cancel.
proof fn lemma_iterate_cancel(c: Seq<int>, n: int, k1: int, k2: int, m: nat)
    requires
        is_perm(c, n),
        0 <= k1 < n,
        0 <= k2 < n,
        iterate(c, k1, m) == iterate(c, k2, m),
    ensures
        k1 == k2,
    decreases m,
{
    if m > 0 {
        lemma_iterate_in_range(c, n, k1, (m - 1) as nat);
        lemma_iterate_in_range(c, n, k2, (m - 1) as nat);
        assert(c[iterate(c, k1, (m - 1) as nat)] == c[iterate(c, k2, (m - 1) as nat)]);
        lemma_iterate_cancel(c, n, k1, k2, (m - 1) as nat);
    }
}

/// A cell is on the cycle of cell 0, reached within `p` steps.
spec fn in_orbit(c: Seq<int>, p: nat, v: int) -> bool {
    exists|t: nat| t < p && iterate(c, 0, t) == v
}

/// The cycle of 0 is closed under predecessor.
proof fn lemma_orbit_pred(c: Seq<int>, n: int, p: nat, z: int)
    requires
        is_perm(c, n),
        n >= 1,
        p >= 1,
        iterate(c, 0, p) == 0,
        0 <= z < n,
        in_orbit(c, p, c[z]),
    ensures
        in_orbit(c, p, z),
{
    let t = choose|t: nat| t < p && iterate(c, 0, t) == c[z];
    if t >= 1 {
        assert(iterate(c, 0, t) == c[iterate(c, 0, (t - 1) as nat)]);
        lemma_iterate_in_range(c, n, 0, (t - 1) as nat);
        assert(iterate(c, 0, (t - 1) as nat) == z);
        assert(((t - 1) as nat) < p && iterate(c, 0, (t - 1) as nat) == z);
    } else {
        assert(c[z] == 0);
        assert(iterate(c, 0, p) == c[iterate(c, 0, (p - 1) as nat)]);
        lemma_iterate_in_range(c, n, 0, (p - 1) as nat);
        assert(iterate(c, 0, (p - 1) as nat) == z);
        assert(((p - 1) as nat) < p && iterate(c, 0, (p - 1) as nat) == z);
    }
}

/// A cell whose walk meets the cycle of 0 lies on that cycle itself.
proof fn lemma_orbit_reach(c: Seq<int>, n: int, p: nat, k: int, m: nat)
    requires
        is_perm(c, n),
        n >= 1,
        p >= 1,
        iterate(c, 0, p) == 0,
        0 <= k < n,
        in_orbit(c, p, iterate(c, k, m)),
    ensures
        in_orbit(c, p, k),
    decreases m,
{
    if m > 0 {
        lemma_iterate_in_range(c, n, k, (m - 1) as nat);
        assert(iterate(c, k, m) == c[iterate(c, k, (m - 1) as nat)]);
        lemma_orbit_pred(c, n, p, iterate(c, k, (m - 1) as nat));
        lemma_orbit_reach(c, n, p, k, (m - 1) as nat);
    }
}

/// When the swapping schedule has run down to cell 0, the permutation is one
/// single cycle: from any cell, `n` steps come back to the start, and no two
/// of the first `n` cells of the walk coincide.
pub proof fn lemma_single_cycle(c: Seq<int>, n: int)
    requires
        sattolo_inv(c, n, 0),
        n >= 1,
    ensures
        forall|k: int| 0 <= k < n ==> #[trigger] iterate(c, k, n as nat) == k,
        forall|k: int, a: nat, b: nat|
            #![trigger iterate(c, k, a), iterate(c, k, b)]
            0 <= k < n && a < b < n ==> iterate(c, k, a) != iterate(c, k, b),
{
    assert(lone_low(c, 0, 0));
    let m0 = choose|m: nat| returns_avoiding(c, 0, 0, m);
    assert(returns_avoiding(c, 0, 0, m0));
    let p = (m0 + 1) as nat;
    assert(iterate(c, 0, p) == 0);

    // The first p cells of the walk from 0 are pairwise distinct.
    assert forall|s: nat, t: nat|
        #![trigger iterate(c, 0, s), iterate(c, 0, t)]
        s < t < p implies iterate(c, 0, s) != iterate(c, 0, t) by {
        if iterate(c, 0, s) == iterate(c, 0, t) {
            let d = (t - s) as nat;
            lemma_iterate_add(c, 0, d, s);
            assert(iterate(c, 0, t) == iterate(c, iterate(c, 0, d), s));
            lemma_iterate_in_range(c, n, 0, d);
            lemma_iterate_cancel(c, n, 0, iterate(c, 0, d), s);
            assert(iterate(c, 0, d) == 0);
            assert(1 <= d <= m0);
            assert(iterate(c, 0, d) > 0);
        }
    }

    // Every cell reaches 0, hence lies on the cycle of 0.
    assert forall|k: int| 0 <= k < n implies in_orbit(c, p, k) by {
        assert(reaches_low(c, k, 0));
        let mk = choose|m: nat| first_reach(c, k, 0, m);
        assert(first_reach(c, k, 0, mk));
        lemma_iterate_in_range(c, n, k, mk);
        assert(iterate(c, k, mk) == 0);
        assert(iterate(c, 0, 0) == 0);
        assert(in_orbit(c, p, iterate(c, k, mk)));
        lemma_orbit_reach(c, n, p, k, mk);
    }

    // Count the walk: p distinct cells, and all n cells among them, so p == n.
    let walk = Seq::new(p, |t: int| iterate(c, 0, t as nat));
    assert(walk.no_duplicates()) by {
        assert forall|s: int, t: int| 0 <= s < p && 0 <= t < p && s != t implies walk[s]
            != walk[t] by {
            if s < t {
                assert(iterate(c, 0, s as nat) != iterate(c, 0, t as nat));
            } else {
                assert(iterate(c, 0, t as nat) != iterate(c, 0, s as nat));
            }
        }
    }
    walk.unique_seq_to_set();
    assert(walk.to_set().len() == p);
    let full = set_int_range(0, n);
    lemma_int_range(0, n);
    assert(walk.to_set() =~= full) by {
        assert forall|v: int| walk.to_set().contains(v) implies full.contains(v) by {
            assert(walk.contains(v));
            let t = choose|t: int| 0 <= t < walk.len() && walk[t] == v;
            lemma_iterate_in_range(c, n, 0, t as nat);
        }
        assert forall|v: int| full.contains(v) implies walk.to_set().contains(v) by {
            assert(in_orbit(c, p, v));
            let t = choose|t: nat| t < p && iterate(c, 0, t) == v;
            assert(walk[t as int] == v);
            assert(walk.contains(v));
        }
    }
    assert(p == n);

    // Periodicity: any walk folds onto the walk from 0.
    assert forall|s: nat| s >= p && s < 2 * p implies #[trigger] iterate(c, 0, s) == iterate(
        c,
        0,
        (s - p) as nat,
    ) by {
        lemma_iterate_add(c, 0, p, (s - p) as nat);
    }

    assert forall|k: int| 0 <= k < n implies #[trigger] iterate(c, k, n as nat) == k by {
        assert(in_orbit(c, p, k));
        let t = choose|t: nat| t < p && iterate(c, 0, t) == k;
        assert(iterate(c, 0, t) == k);
        lemma_iterate_add(c, 0, t, p);
        assert(iterate(c, 0, t + p) == iterate(c, k, p));
        lemma_iterate_add(c, 0, p, t);
        assert(iterate(c, 0, p + t) == iterate(c, iterate(c, 0, p), t));
        assert(iterate(c, k, p) == iterate(c, 0, t));
    }

    assert forall|k: int, a: nat, b: nat|
        #![trigger iterate(c, k, a), iterate(c, k, b)]
        0 <= k < n && a < b < n implies iterate(c, k, a) != iterate(c, k, b) by {
        assert(in_orbit(c, p, k));
        let t = choose|t: nat| t < p && iterate(c, 0, t) == k;
        assert(iterate(c, 0, t) == k && t < p);
        lemma_iterate_add(c, 0, t, a);
        lemma_iterate_add(c, 0, t, b);
        assert(iterate(c, k, a) == iterate(c, 0, t + a));
        assert(iterate(c, k, b) == iterate(c, 0, t + b));
        let ra: nat = if t + a < p {
            (t + a) as nat
        } else {
            (t + a - p) as nat
        };
        let rb: nat = if t + b < p {
            (t + b) as nat
        } else {
            (t + b - p) as nat
        };
        assert(iterate(c, 0, (t + a) as nat) == iterate(c, 0, ra));
        assert(iterate(c, 0, (t + b) as nat) == iterate(c, 0, rb));
        assert(ra != rb);
        if ra < rb {
            assert(iterate(c, 0, ra) != iterate(c, 0, rb));
        } else {
            assert(iterate(c, 0, rb) != iterate(c, 0, ra));
        }
    }
}

} // verus!
