//! Structures for deliberate pointer-chasing.
//!
//! A [PointerMaze] is a fixed-capacity array of cells, each holding the index
//! of another cell, shuffled into one randomized cycle with
//! [PointerMaze::shuffle] so that a chain of dependent loads walks every
//! strided cell exactly once before coming back to its start. Cell indices
//! stand for the cell addresses the structure carries at run time; turning an
//! index into the address of the backing storage is the caller's concern.

use vstd::prelude::*;
use crate::cycle::identity;
use crate::cycle::is_perm;
use crate::cycle::iterate;
use crate::cycle::lemma_sattolo_init;
use crate::cycle::lemma_sattolo_step;
use crate::cycle::lemma_single_cycle;
use crate::cycle::sattolo_inv;
use crate::util::spec_rng_iter;
use crate::util::spec_xorshift_step;
use crate::util::Xorshift64;

verus! {

/// The index drawn for step `i` of the swapping schedule over `n` strided
/// cells, seeded with `seed`: step `i` consumes the `(n - i)`-th generator
/// value, reduced below `i`.
pub open spec fn spec_draw(seed: u64, n: int, i: int) -> int {
    spec_rng_iter(seed, (n - i) as nat) as int % i
}

/// The abstract successor array that the swapping schedule leaves once the
/// indices `n - 1` down to `b + 1` are processed: starting from the
/// identity, each step `i` swaps the successors of cell `i` and of the
/// drawn cell `j < i`. The whole result is a function of the seed alone.
pub open spec fn spec_sattolo(seed: u64, n: int, b: int) -> Seq<int>
    decreases n - b,
{
    if b >= n - 1 {
        identity(n)
    } else {
        let c = spec_sattolo(seed, n, b + 1);
        let i = b + 1;
        let j = spec_draw(seed, n, i);
        c.update(i, c[j]).update(j, c[i])
    }
}

/// Wrapper around a pointer: the index of the maze cell it points at.
#[derive(Clone, Copy, Debug, PartialEq, Eq, Structural)]
pub struct Pointer(pub usize);

impl Default for Pointer {
    /// The null pointer: index zero.
    fn default() -> (r: Self)
        ensures
            r.0 == 0,
    {
        Pointer(0)
    }
}

/// Whether `idx` is one of the `n` strided cells `0, stride, 2 * stride, ...`
pub open spec fn is_chain_cell(idx: int, stride: int, n: int) -> bool {
    exists|k: int| 0 <= k < n && idx == #[trigger] (k * stride)
}

/// Storage for a cyclic chain of cell indices.
///
/// The constant `SIZE` indicates the number of cells.
pub struct PointerMaze<const SIZE: usize> {
    pub data: Vec<usize>,
}

impl<const SIZE: usize> PointerMaze<SIZE> {
    /// The backing storage holds exactly `SIZE` cells.
    pub open spec fn wf(self) -> bool {
        self.data.len() == SIZE
    }

    /// The number of strided cells for a given stride.
    pub open spec fn chain_len(stride: int) -> int {
        SIZE as int / stride
    }

    /// The strided cells read as an abstract successor array: entry `k` is
    /// the chain position that cell `k * stride` points at.
    pub open spec fn chain_view(self, stride: int) -> Seq<int> {
        Seq::new((SIZE as int / stride) as nat, |k: int| self.data@[k * stride] as int / stride)
    }

    /// Every strided cell points exactly at the strided cell named by the
    /// chain view: the stored index is the chain position times the stride.
    pub open spec fn cells_follow_chain(self, stride: int) -> bool {
        forall|k: int|
            0 <= k < Self::chain_len(stride) ==> self.data@[#[trigger] (k * stride)]
                == self.chain_view(stride)[k] * stride
    }

    /// The chain view is a permutation forming one single cycle: from any
    /// chain position, `n` steps come back to the start and no two of the
    /// first `n` steps land on the same position.
    pub open spec fn chain_is_single_cycle(self, stride: int) -> bool {
        let n = Self::chain_len(stride);
        let c = self.chain_view(stride);
        &&& is_perm(c, n)
        &&& forall|k: int| 0 <= k < n ==> #[trigger] iterate(c, k, n as nat) == k
        &&& forall|k: int, a: nat, b: nat|
            #![trigger iterate(c, k, a), iterate(c, k, b)]
            0 <= k < n && a < b < n ==> iterate(c, k, a) != iterate(c, k, b)
    }

    /// Allocate a new maze where all the cells are initialized to zero.
    pub fn new() -> (r: Self)
        ensures
            r.wf(),
            forall|i: int| 0 <= i < SIZE ==> r.data@[i] == 0,
    {
        let mut data: Vec<usize> = Vec::new();
        let mut idx: usize = 0;
        while idx < SIZE
            invariant
                data.len() == idx,
                idx <= SIZE,
                forall|i: int| 0 <= i < idx ==> data@[i] == 0,
            decreases SIZE - idx,
        {
            data.push(0);
            idx = idx + 1;
        }
        Self { data }
    }

    /// Get a pointer to the first cell.
    pub fn head_ptr(&self) -> (r: Pointer)
        requires
            SIZE >= 1,
        ensures
            r.0 == 0,
    {
        Pointer(0)
    }

    /// Get a pointer to the middle cell.
    pub fn mid_ptr(&self) -> (r: Pointer)
        requires
            SIZE >= 1,
        ensures
            r.0 == SIZE / 2,
    {
        Pointer(SIZE / 2)
    }

    /// Get a pointer to the last cell.
    pub fn tail_ptr(&self) -> (r: Pointer)
        requires
            SIZE >= 1,
        ensures
            r.0 == SIZE - 1,
    {
        Pointer(SIZE - 1)
    }

    /// Return the size of the structure in bytes; every cell is one
    /// pointer-sized (eight-byte) word.
    pub fn size_in_bytes(&self) -> (r: usize)
        requires
            SIZE * 8 <= usize::MAX,
        ensures
            r == SIZE * 8,
    {
        SIZE * 8
    }

    /// Return the number of 64-byte cache lines occupied by this structure.
    pub fn size_in_lines(&self) -> (r: usize)
        requires
            SIZE * 8 <= usize::MAX,
        ensures
            r == SIZE * 8 / 64,
    {
        self.size_in_bytes() / 64
    }

    /// Return the number of cells in this structure.
    pub fn len(&self) -> (r: usize)
        ensures
            r == SIZE,
    {
        SIZE
    }

    /// Initialize each cell with its own index: every cell points at itself.
    pub fn initialize(&mut self)
        requires
            old(self).wf(),
        ensures
            final(self).wf(),
            forall|i: int| 0 <= i < SIZE ==> final(self).data@[i] == i,
    {
        let mut idx: usize = 0;
        while idx < SIZE
            invariant
                self.wf(),
                idx <= SIZE,
                forall|i: int| 0 <= i < idx ==> self.data@[i] == i,
            decreases SIZE - idx,
        {
            self.data.set(idx, idx);
            idx = idx + 1;
        }
    }

    /// Shuffle the cells, producing a randomized cyclic linked list over the
    /// strided cells.
    ///
    /// Walks position `i` from `n - 1` down to `1` (with `n` the number of
    /// strided cells), draws `j` uniformly below `i` from the generator, and
    /// swaps the contents of the cells at offsets `i * stride` and
    /// `j * stride`. The swapping schedule guarantees a single cycle of
    /// length `n` over the strided cells — never several disjoint
    /// sub-cycles — so a chain of dereferences visits all of them before
    /// repeating; cells off the stride grid keep pointing at themselves.
    ///
    /// The result is [spec_sattolo] of the generator's starting state: a
    /// deterministic function of seed and stride, so replaying with an equal
    /// seed reproduces the identical cycle. Exactly `n - 1` draws are
    /// consumed, one per step.
    #[verifier::rlimit(50)]
    pub fn shuffle(&mut self, rng: &mut Xorshift64, stride: usize)
        requires
            old(self).wf(),
            1 <= stride <= SIZE,
        ensures
            final(self).wf(),
            final(self).cells_follow_chain(stride as int),
            final(self).chain_is_single_cycle(stride as int),
            final(self).chain_view(stride as int) == spec_sattolo(
                old(rng).val,
                Self::chain_len(stride as int),
                0,
            ),
            final(rng).val == spec_rng_iter(
                old(rng).val,
                (Self::chain_len(stride as int) - 1) as nat,
            ),
            forall|idx: int|
                0 <= idx < SIZE && !is_chain_cell(
                    idx,
                    stride as int,
                    Self::chain_len(stride as int),
                ) ==> final(self).data@[idx] == idx,
    {
        self.initialize();
        let n: usize = SIZE / stride;
        let ghost st: int = stride as int;
        let ghost seed: u64 = rng.val;
        proof {
            assert(SIZE as int / st >= 1) by (nonlinear_arith)
                requires
                    1 <= st <= SIZE as int,
            ;
            assert((SIZE as int / st) * st <= SIZE as int) by (nonlinear_arith)
                requires
                    st >= 1,
            ;
        }
        let ghost mut gc: Seq<int> = identity(n as int);
        proof {
            lemma_sattolo_init(n as int);
            lemma_identity_abstracts::<SIZE>(self.data@, st, n as int);
            assert(gc == spec_sattolo(seed, n as int, (n - 1) as int));
            assert(rng.val == spec_rng_iter(seed, 0));
        }
        let mut i: usize = n - 1;
        while i >= 1
            invariant
                self.wf(),
                n == SIZE / stride,
                1 <= stride <= SIZE,
                st == stride as int,
                n >= 1,
                (n as int) * st <= SIZE as int,
                i <= n - 1,
                sattolo_inv(gc, n as int, i as int),
                gc == spec_sattolo(seed, n as int, i as int),
                rng.val == spec_rng_iter(seed, (n - 1 - i) as nat),
                chain_abstracts(self.data@, gc, st, n as int),
                off_chain_identity(self.data@, st, n as int, SIZE as int),
            decreases i,
        {
            let r = rng.next();
            let j: usize = (r % (i as u64)) as usize;
            proof {
                assert(spec_rng_iter(seed, (n - i) as nat) == spec_xorshift_step(
                    spec_rng_iter(seed, (n - 1 - i) as nat),
                ));
                assert(r == spec_rng_iter(seed, (n - i) as nat));
                assert(j as int == spec_draw(seed, n as int, i as int));
                lemma_chain_cell_bounds(st, n as int, SIZE as int, i as int, j as int);
            }
            let a: usize = j * stride;
            let b: usize = i * stride;
            let va = self.data[a];
            let vb = self.data[b];
            let ghost pre = self.data@;
            self.data.set(a, vb);
            self.data.set(b, va);
            proof {
                lemma_shuffle_swap_step(
                    pre,
                    self.data@,
                    gc,
                    st,
                    n as int,
                    SIZE as int,
                    i as int,
                    j as int,
                );
                assert(spec_sattolo(seed, n as int, (i - 1) as int) == gc.update(
                    i as int,
                    gc[j as int],
                ).update(j as int, gc[i as int]));
                gc = gc.update(i as int, gc[j as int]).update(j as int, gc[i as int]);
            }
            i = i - 1;
        }
        proof {
            lemma_single_cycle(gc, n as int);
            let cv = self.chain_view(st);
            assert forall|k: int| 0 <= k < n implies cv[k] == gc[k] by {
                assert(self.data@[k * st] == gc[k] * st);
                let v = gc[k];
                assert(v >= 0);
                assert((v * st) / st == v) by (nonlinear_arith)
                    requires
                        st >= 1,
                        v >= 0,
                ;
            }
            assert(cv =~= gc);
        }
    }
}

/// The strided cells of `s` spell out the abstract successor array `c`:
/// cell `k * stride` holds `c[k] * stride`.
pub open spec fn chain_abstracts(s: Seq<usize>, c: Seq<int>, stride: int, n: int) -> bool {
    forall|k: int| 0 <= k < n ==> s[k * stride] == (#[trigger] c[k]) * stride
}

/// Every cell of `s` off the stride grid points at itself.
pub open spec fn off_chain_identity(s: Seq<usize>, stride: int, n: int, len: int) -> bool {
    forall|idx: int| 0 <= idx < len && !is_chain_cell(idx, stride, n) ==> #[trigger] s[idx] == idx
}

/// The identity array abstracts to the identity chain.
proof fn lemma_identity_abstracts<const SIZE: usize>(s: Seq<usize>, st: int, n: int)
    requires
        s.len() == SIZE,
        st >= 1,
        n == SIZE as int / st,
        n * st <= SIZE as int,
        forall|i: int| 0 <= i < SIZE ==> s[i] == i,
    ensures
        chain_abstracts(s, identity(n), st, n),
        off_chain_identity(s, st, n, SIZE as int),
{
    assert forall|k: int| 0 <= k < n implies s[k * st] == (#[trigger] identity(n)[k]) * st by {
        assert(0 <= k * st < SIZE as int) by (nonlinear_arith)
            requires
                0 <= k < n,
                st >= 1,
                n * st <= SIZE as int,
        ;
    }
}

/// The two cells swapped in one step of the schedule lie inside the array.
proof fn lemma_chain_cell_bounds(st: int, n: int, len: int, i: int, j: int)
    requires
        st >= 1,
        n * st <= len,
        0 <= j < i <= n - 1,
    ensures
        0 <= j * st < i * st,
        i * st + st <= len,
        i * st < len,
        j * st < len,
{
    assert(j * st < i * st && i * st + st <= n * st) by (nonlinear_arith)
        requires
            0 <= j < i,
            i <= n - 1,
            st >= 1,
    ;
    assert(0 <= j * st) by (nonlinear_arith)
        requires
            0 <= j,
            st >= 1,
    ;
}

/// One exec swap of two strided cells corresponds to one abstract swap of
/// the schedule: the invariant of the shuffle loop is carried from `i` down
/// to `i - 1`.
proof fn lemma_shuffle_swap_step(
    pre: Seq<usize>,
    post: Seq<usize>,
    gc: Seq<int>,
    st: int,
    n: int,
    len: int,
    i: int,
    j: int,
)
    requires
        pre.len() == len,
        st >= 1,
        n == len / st,
        n * st <= len,
        0 <= j < i <= n - 1,
        sattolo_inv(gc, n, i),
        chain_abstracts(pre, gc, st, n),
        off_chain_identity(pre, st, n, len),
        post == pre.update(j * st, pre[i * st]).update(i * st, pre[j * st]),
    ensures
        sattolo_inv(gc.update(i, gc[j]).update(j, gc[i]), n, i - 1),
        chain_abstracts(post, gc.update(i, gc[j]).update(j, gc[i]), st, n),
        off_chain_identity(post, st, n, len),
{
    let gc2 = gc.update(i, gc[j]).update(j, gc[i]);
    lemma_sattolo_step(gc, n, i, j);
    lemma_chain_cell_bounds(st, n, len, i, j);
    assert(is_chain_cell(j * st, st, n));
    assert(is_chain_cell(i * st, st, n));
    assert forall|k: int| 0 <= k < n implies post[k * st] == (#[trigger] gc2[k]) * st by {
        assert(0 <= k * st < len) by (nonlinear_arith)
            requires
                0 <= k < n,
                st >= 1,
                n * st <= len,
        ;
        if k != i && k != j {
            assert(k * st != i * st && k * st != j * st) by (nonlinear_arith)
                requires
                    st >= 1,
                    0 <= k,
                    0 <= i,
                    0 <= j,
                    k != i,
                    k != j,
            ;
            assert(pre[k * st] == gc[k] * st);
        }
    }
    assert forall|idx: int|
        0 <= idx < len && !is_chain_cell(idx, st, n) implies #[trigger] post[idx] == idx by {
        assert(pre[idx] == idx);
    }
}

} // verus!
