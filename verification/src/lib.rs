//! Tools for writing and running CPU microbenchmarks.
//!
//! The library covers the gadget-generation and measurement core: bit-exact
//! encoding of counter control words ([pmc]) over a closed catalog of
//! hardware events ([event]), the channel state for the counter-programming
//! authority ([ctx]), a cache-eviction pointer maze shuffled into a single
//! random cycle ([chase], with the cycle argument in [cycle]), byte-exact
//! emission of measurement gadgets ([codegen], encodings in [x86]), and the
//! aggregation of measurement results in this root module. Executing emitted
//! code, device I/O and cache-line flushing are inherently outside what can
//! be verified and belong to the embedding program.

pub mod chase;
pub mod codegen;
pub mod ctx;
pub mod cycle;
pub mod event;
pub mod pmc;
pub mod util;
pub mod x86;

use vstd::prelude::*;
use crate::event::Event;
use crate::pmc::PerfCtlDescriptor;

verus! {

/// How many times the value `v` occurs in the sample sequence `s`.
pub open spec fn occurrences(s: Seq<usize>, v: usize) -> nat
    decreases s.len(),
{
    if s.len() == 0 {
        0
    } else {
        occurrences(s.drop_last(), v) + (if s.last() == v {
            1nat
        } else {
            0nat
        })
    }
}

/// A value occurs at most as often as there are samples.
pub proof fn lemma_occurrences_le_len(s: Seq<usize>, v: usize)
    ensures
        occurrences(s, v) <= s.len(),
    decreases s.len(),
{
    if s.len() > 0 {
        lemma_occurrences_le_len(s.drop_last(), v);
    }
}

/// A value that occurs at some position occurs at least once.
pub proof fn lemma_occurrences_pos(s: Seq<usize>, v: usize, x: int)
    requires
        0 <= x < s.len(),
        s[x] == v,
    ensures
        occurrences(s, v) >= 1,
    decreases s.len(),
{
    if x < s.len() - 1 {
        lemma_occurrences_pos(s.drop_last(), v, x);
    }
}

/// A value that occurs at no position occurs not at all.
pub proof fn lemma_occurrences_zero(s: Seq<usize>, v: usize)
    requires
        forall|x: int| 0 <= x < s.len() ==> s[x] != v,
    ensures
        occurrences(s, v) == 0,
    decreases s.len(),
{
    if s.len() > 0 {
        lemma_occurrences_zero(s.drop_last(), v);
    }
}

/// In a constant sample sequence, the constant accounts for every sample
/// and any other value for none.
pub proof fn lemma_constant_samples(s: Seq<usize>, v: usize)
    requires
        forall|i: int| 0 <= i < s.len() ==> s[i] == v,
    ensures
        occurrences(s, v) == s.len(),
        forall|w: usize| w != v ==> occurrences(s, w) == 0,
    decreases s.len(),
{
    if s.len() > 0 {
        assert(s.last() == v);
        lemma_constant_samples(s.drop_last(), v);
        assert forall|w: usize| w != v implies occurrences(s, w) == 0 by {
            assert(occurrences(s.drop_last(), w) == 0);
        }
    }
}

/// Harness aggregate correctness for a deterministic stub: when every one
/// of `n >= 1` recorded samples is the constant `v`, a minimum/maximum pair
/// as [minmax] returns it collapses to `v` on both sides, and a frequency
/// table as [frequency] returns it is the single entry `(v, n)`.
pub proof fn lemma_constant_aggregates(
    s: Seq<usize>,
    v: usize,
    lo: usize,
    hi: usize,
    t: Seq<(usize, usize)>,
)
    requires
        1 <= s.len() <= usize::MAX,
        forall|i: int| 0 <= i < s.len() ==> s[i] == v,
        forall|i: int| 0 <= i < s.len() ==> lo <= #[trigger] s[i] && s[i] <= hi,
        exists|i: int| 0 <= i < s.len() && s[i] == lo,
        exists|i: int| 0 <= i < s.len() && s[i] == hi,
        forall|p: int, q: int| 0 <= p < q < t.len() ==> t[p].0 != t[q].0,
        forall|p: int| 0 <= p < t.len() ==> #[trigger] t[p].1 == occurrences(s, t[p].0),
        forall|i: int| 0 <= i < s.len() ==> #[trigger] table_has_key(t, s[i]),
        forall|p: int| 0 <= p < t.len() ==> #[trigger] t[p].1 >= 1,
    ensures
        lo == v,
        hi == v,
        t.len() == 1,
        t[0].0 == v,
        t[0].1 == s.len(),
{
    lemma_constant_samples(s, v);
    assert(lo == v) by {
        let i = choose|i: int| 0 <= i < s.len() && s[i] == lo;
        assert(s[i] == v);
    }
    assert(hi == v) by {
        let i = choose|i: int| 0 <= i < s.len() && s[i] == hi;
        assert(s[i] == v);
    }
    assert forall|p: int| 0 <= p < t.len() implies #[trigger] t[p].0 == v by {
        assert(t[p].1 == occurrences(s, t[p].0));
        assert(t[p].1 >= 1);
        if t[p].0 != v {
            assert(occurrences(s, t[p].0) == 0);
        }
    }
    assert(table_has_key(t, s[0]));
    let p0 = choose|p: int| 0 <= p < t.len() && (#[trigger] t[p].0) == s[0];
    assert(t.len() >= 1);
    if t.len() >= 2 {
        assert(t[0].0 == v && t[1].0 == v);
        assert(false);
    }
    assert(t[0].1 == occurrences(s, v));
}

/// Return the smallest and largest value in a non-empty sample set.
pub fn minmax(data: &Vec<usize>) -> (r: (usize, usize))
    requires
        data.len() > 0,
    ensures
        forall|i: int| 0 <= i < data.len() ==> r.0 <= #[trigger] data[i] && data[i] <= r.1,
        exists|i: int| 0 <= i < data.len() && data[i] == r.0,
        exists|i: int| 0 <= i < data.len() && data[i] == r.1,
{
    let mut min: usize = data[0];
    let mut max: usize = data[0];
    let mut idx: usize = 1;
    while idx < data.len()
        invariant
            1 <= idx <= data.len(),
            forall|i: int| 0 <= i < idx ==> min <= #[trigger] data[i] && data[i] <= max,
            exists|i: int| 0 <= i < idx && data[i] == min,
            exists|i: int| 0 <= i < idx && data[i] == max,
        decreases data.len() - idx,
    {
        if data[idx] < min {
            min = data[idx];
        }
        if data[idx] > max {
            max = data[idx];
        }
        idx = idx + 1;
    }
    (min, max)
}

/// The table holds an entry for the value `v`.
pub open spec fn table_has_key(t: Seq<(usize, usize)>, v: usize) -> bool {
    exists|p: int| 0 <= p < t.len() && (#[trigger] t[p].0) == v
}

/// The value `v` appears among the first `upto` samples.
pub open spec fn value_seen(d: Seq<usize>, upto: int, v: usize) -> bool {
    exists|x: int| 0 <= x < upto && (#[trigger] d[x]) == v
}

/// The frequency table of a sample set: one entry per distinct value,
/// carrying how often it was observed. Entries appear in order of first
/// observation.
#[verifier::rlimit(50)]
pub fn frequency(data: &Vec<usize>) -> (r: Vec<(usize, usize)>)
    ensures
        forall|p: int, q: int| 0 <= p < q < r.len() ==> r[p].0 != r[q].0,
        forall|p: int| 0 <= p < r.len() ==> #[trigger] r[p].1 == occurrences(data@, r[p].0),
        forall|i: int| 0 <= i < data.len() ==> #[trigger] table_has_key(r@, data[i]),
        forall|p: int| 0 <= p < r.len() ==> #[trigger] r[p].1 >= 1,
{
    let mut table: Vec<(usize, usize)> = Vec::new();
    let mut i: usize = 0;
    while i < data.len()
        invariant
            i <= data.len(),
            forall|p: int, q: int| 0 <= p < q < table.len() ==> table[p].0 != table[q].0,
            forall|p: int|
                0 <= p < table.len() ==> #[trigger] table[p].1 == occurrences(
                    data@.take(i as int),
                    table[p].0,
                ),
            forall|x: int| 0 <= x < i ==> #[trigger] table_has_key(table@, data[x]),
            forall|p: int|
                0 <= p < table.len() ==> value_seen(data@, i as int, #[trigger] table[p].0),
        decreases data.len() - i,
    {
        let v = data[i];
        let ghost prefix = data@.take(i as int);
        let ghost prefix2 = data@.take(i as int + 1);
        let ghost pretable = table@;
        proof {
            assert(prefix2.drop_last() =~= prefix);
            assert(prefix2.last() == data[i as int]);
            assert forall|w: usize|
                occurrences(prefix2, w) == occurrences(prefix, w) + (if w == v {
                    1nat
                } else {
                    0nat
                }) by {}
        }
        // Look the value up in the table built so far.
        let mut p: usize = 0;
        while p < table.len() && table[p].0 != v
            invariant
                p <= table.len(),
                table@ == pretable,
                forall|q: int| 0 <= q < p ==> table[q].0 != v,
            decreases table.len() - p,
        {
            p = p + 1;
        }
        if p < table.len() {
            // Known value: bump its count.
            let entry = table[p];
            proof {
                lemma_occurrences_le_len(prefix, v);
            }
            table.set(p, (v, entry.1 + 1));
            proof {
                assert(table[p as int].0 == v);
                assert(pretable[p as int].0 == v);
                assert forall|q: int|
                    0 <= q < table.len() && q != p implies table[q] == pretable[q] by {}
                assert forall|q: int|
                    0 <= q < table.len() implies #[trigger] table[q].1 == occurrences(
                        prefix2,
                        table[q].0,
                    ) by {
                    if q != p {
                        assert(table[q] == pretable[q]);
                        assert(table[q].0 != v);
                    }
                }
                assert forall|q: int|
                    0 <= q < table.len() implies value_seen(
                        data@,
                        i as int + 1,
                        #[trigger] table[q].0,
                    ) by {
                    if q != p {
                        let x = choose|x: int|
                            0 <= x < i && (#[trigger] data@[x]) == pretable[q].0;
                        assert(0 <= x < i + 1 && data@[x] == table[q].0);
                    } else {
                        assert(data@[i as int] == table[q].0);
                    }
                }
            }
        } else {
            // First observation of this value.
            proof {
                assert forall|x: int| 0 <= x < prefix.len() implies prefix[x] != v by {
                    if prefix[x] == v {
                        assert(table_has_key(pretable, data[x]));
                        let q = choose|q: int|
                            0 <= q < pretable.len() && (#[trigger] pretable[q].0) == data[x];
                        assert(pretable[q].0 == v);
                    }
                }
                lemma_occurrences_zero(prefix, v);
            }
            table.push((v, 1));
            proof {
                assert(table[table@.len() - 1].0 == v);
                assert forall|q: int|
                    0 <= q < table.len() - 1 implies table[q] == pretable[q] by {}
                assert forall|q: int|
                    0 <= q < table.len() implies #[trigger] table[q].1 == occurrences(
                        prefix2,
                        table[q].0,
                    ) by {
                    if q < table.len() - 1 {
                        assert(table[q] == pretable[q]);
                        assert(table[q].0 != v);
                    }
                }
                assert forall|q: int|
                    0 <= q < table.len() implies value_seen(
                        data@,
                        i as int + 1,
                        #[trigger] table[q].0,
                    ) by {
                    if q < table.len() - 1 {
                        let x = choose|x: int|
                            0 <= x < i && (#[trigger] data@[x]) == pretable[q].0;
                        assert(0 <= x < i + 1 && data@[x] == table[q].0);
                    } else {
                        assert(data@[i as int] == table[q].0);
                    }
                }
            }
        }
        proof {
            assert(table@[p as int].0 == v);
            assert forall|x: int| 0 <= x < i + 1 implies #[trigger] table_has_key(
                table@,
                data[x],
            ) by {
                if x < i {
                    assert(table_has_key(pretable, data[x]));
                    let q = choose|q: int|
                        0 <= q < pretable.len() && (#[trigger] pretable[q].0) == data[x];
                    assert(table@[q].0 == data[x]);
                } else {
                    assert(data@[x] == v);
                    assert(table@[p as int].0 == data[x]);
                }
            }
        }
        i = i + 1;
    }
    proof {
        assert(data@.take(data@.len() as int) =~= data@);
        assert forall|p: int| 0 <= p < table.len() implies #[trigger] table[p].1 >= 1 by {
            let x = choose|x: int| 0 <= x < data.len() && (#[trigger] data@[x]) == table[p].0;
            lemma_occurrences_pos(data@, table[p].0, x);
        }
    }
    table
}

/// The samples held in channel `i` of a data column: the recorded vector's
/// contents, or nothing for an inactive channel.
pub open spec fn samples_of(d: Seq<Option<Vec<usize>>>, i: int) -> Seq<usize> {
    match d[i] {
        Some(v) => v@,
        None => Seq::empty(),
    }
}

/// A set of results collected from the six counter channels.
pub struct PMCResults {
    /// The set of events counted.
    pub event: Vec<Option<Event>>,
    /// Sets of data for each event; a channel has a data set exactly when it
    /// has an event.
    pub data: Vec<Option<Vec<usize>>>,
}

impl PMCResults {
    /// Six channels, and a channel holds samples exactly when it counts an
    /// event.
    pub open spec fn wf(self) -> bool {
        &&& self.event.len() == 6
        &&& self.data.len() == 6
        &&& forall|i: int| 0 <= i < 6 ==> (self.data[i] is Some <==> self.event[i] is Some)
    }

    /// The samples recorded so far on a channel; empty for a channel that
    /// counts nothing.
    pub open spec fn spec_samples(self, i: int) -> Seq<usize> {
        samples_of(self.data@, i)
    }

    /// Create a new, empty set of results for the channels the descriptor
    /// programs.
    pub fn new(desc: &PerfCtlDescriptor) -> (r: Self)
        requires
            desc.wf(),
        ensures
            r.wf(),
            forall|i: int| 0 <= i < 6 ==> r.event[i] == desc.events[i],
            forall|i: int| 0 <= i < 6 ==> #[trigger] r.spec_samples(i) == Seq::<usize>::empty(),
    {
        let mut event: Vec<Option<Event>> = Vec::new();
        let mut data: Vec<Option<Vec<usize>>> = Vec::new();
        let mut idx: usize = 0;
        while idx < 6
            invariant
                desc.wf(),
                idx <= 6,
                event.len() == idx,
                data.len() == idx,
                forall|i: int| 0 <= i < idx ==> event[i] == desc.events[i],
                forall|i: int| 0 <= i < idx ==> (data[i] is Some <==> event[i] is Some),
                forall|i: int|
                    0 <= i < idx ==> ((#[trigger] data[i]) matches Some(v) ==> v@ =~= Seq::<
                        usize,
                    >::empty()),
            decreases 6 - idx,
        {
            event.push(desc.events[idx]);
            if desc.events[idx].is_some() {
                data.push(Some(Vec::new()));
            } else {
                data.push(None);
            }
            idx = idx + 1;
        }
        let r = Self { event, data };
        proof {
            assert forall|i: int| 0 <= i < 6 implies #[trigger] r.spec_samples(i) == Seq::<
                usize,
            >::empty() by {
                if r.data[i] is Some {
                    assert(r.spec_samples(i) =~= Seq::<usize>::empty());
                }
            }
        }
        r
    }

    /// Append one six-channel sample row: every active channel records its
    /// own column, inactive channels stay empty.
    pub fn record_row(&mut self, row: &Vec<usize>)
        requires
            old(self).wf(),
            row.len() == 6,
        ensures
            final(self).wf(),
            final(self).event@ == old(self).event@,
            forall|i: int|
                0 <= i < 6 ==> #[trigger] final(self).spec_samples(i) == (if old(self).data[i]
                    is Some {
                    old(self).spec_samples(i).push(row[i])
                } else {
                    Seq::<usize>::empty()
                }),
    {
        let mut idx: usize = 0;
        while idx < 6
            invariant
                self.event.len() == 6,
                self.data.len() == 6,
                row.len() == 6,
                idx <= 6,
                self.event@ == old(self).event@,
                forall|i: int|
                    0 <= i < 6 ==> (self.data[i] is Some <==> old(self).data[i] is Some),
                forall|i: int|
                    idx <= i < 6 ==> #[trigger] self.data[i] == old(self).data[i],
                forall|i: int|
                    0 <= i < idx ==> #[trigger] samples_of(self.data@, i) == (if old(self).data[i]
                        is Some {
                        samples_of(old(self).data@, i).push(row[i])
                    } else {
                        Seq::<usize>::empty()
                    }),
                forall|i: int| 0 <= i < 6 ==> (self.data[i] is Some <==> self.event[i] is Some),
            decreases 6 - idx,
        {
            let ghost before = self.data@;
            let slot = self.data.remove(idx);
            proof {
                assert(slot == before[idx as int]);
            }
            match slot {
                Some(mut v) => {
                    let ghost oldv = v@;
                    v.push(row[idx]);
                    proof {
                        vstd::seq_lib::lemma_update_is_remove_insert(
                            before,
                            idx as int,
                            Some(v),
                        );
                    }
                    self.data.insert(idx, Some(v));
                    proof {
                        assert(self.data@ =~= before.update(idx as int, self.data@[idx as int]));
                        assert(self.data@[idx as int] matches Some(nv) && nv@ == oldv.push(
                            row@[idx as int],
                        ));
                    }
                },
                None => {
                    proof {
                        vstd::seq_lib::lemma_update_is_remove_insert(
                            before,
                            idx as int,
                            None,
                        );
                    }
                    self.data.insert(idx, None);
                    proof {
                        assert(self.data@ =~= before.update(idx as int, self.data@[idx as int]));
                        assert(self.data@[idx as int] is None);
                    }
                },
            }
            proof {
                assert forall|i: int| 0 <= i < idx + 1 implies #[trigger] samples_of(
                    self.data@,
                    i,
                ) == (if old(self).data[i] is Some {
                    samples_of(old(self).data@, i).push(row[i])
                } else {
                    Seq::<usize>::empty()
                }) by {
                    if i < idx {
                        assert(samples_of(before, i) == (if old(self).data[i] is Some {
                            samples_of(old(self).data@, i).push(row[i])
                        } else {
                            Seq::<usize>::empty()
                        }));
                        assert(self.data@[i] == before[i]);
                    } else {
                        assert(before[idx as int] == old(self).data@[idx as int]);
                    }
                }
            }
            idx = idx + 1;
        }
    }

    /// The smallest and largest sample of one channel, or nothing for a
    /// channel that counts no event.
    pub fn ctr_minmax(&self, idx: usize) -> (r: Option<(usize, usize)>)
        requires
            self.wf(),
            idx < 6,
            self.data[idx as int] matches Some(d) ==> d@.len() > 0,
        ensures
            r is Some <==> self.data[idx as int] is Some,
            r matches Some(mm) ==> {
                &&& forall|i: int|
                    0 <= i < self.spec_samples(idx as int).len() ==> mm.0 <= #[trigger] self
                        .spec_samples(idx as int)[i] && self.spec_samples(idx as int)[i] <= mm.1
                &&& exists|i: int|
                    0 <= i < self.spec_samples(idx as int).len() && self.spec_samples(
                        idx as int,
                    )[i] == mm.0
                &&& exists|i: int|
                    0 <= i < self.spec_samples(idx as int).len() && self.spec_samples(
                        idx as int,
                    )[i] == mm.1
            },
    {
        match &self.data[idx] {
            Some(d) => {
                let mm = minmax(d);
                proof {
                    assert(self.spec_samples(idx as int) == d@);
                }
                Some(mm)
            },
            None => None,
        }
    }
}

/// Wrapper around one emitted measurement routine and the result data its
/// runs have produced. The executable buffer itself lives with the embedding
/// program; this records its identity (name and code size) and aggregates
/// the six-channel rows that each invocation hands back.
pub struct PMCTest {
    /// User-provided description for this test.
    pub name: &'static str,
    /// Size of the emitted code in bytes.
    pub size: usize,
    /// The latest set of result data from this test.
    pub res: PMCResults,
}

impl PMCTest {
    /// Create a new test for emitted code of the given size, with empty
    /// results for the channels the descriptor programs.
    pub fn new(name: &'static str, size: usize, desc: &PerfCtlDescriptor) -> (r: Self)
        requires
            desc.wf(),
        ensures
            r.name == name,
            r.size == size,
            r.res.wf(),
            forall|i: int| 0 <= i < 6 ==> r.res.event[i] == desc.events[i],
            forall|i: int| 0 <= i < 6 ==> #[trigger] r.res.spec_samples(i) == Seq::<usize>::empty(),
    {
        Self { name, size, res: PMCResults::new(desc) }
    }

    /// Record the six-channel result row of one invocation of the emitted
    /// code.
    pub fn record_run(&mut self, row: &Vec<usize>)
        requires
            old(self).res.wf(),
            row.len() == 6,
        ensures
            final(self).name == old(self).name,
            final(self).size == old(self).size,
            final(self).res.wf(),
            final(self).res.event@ == old(self).res.event@,
            forall|i: int|
                0 <= i < 6 ==> #[trigger] final(self).res.spec_samples(i) == (if old(
                    self,
                ).res.data[i] is Some {
                    old(self).res.spec_samples(i).push(row[i])
                } else {
                    Seq::<usize>::empty()
                }),
    {
        self.res.record_row(row);
    }
}

} // verus!
