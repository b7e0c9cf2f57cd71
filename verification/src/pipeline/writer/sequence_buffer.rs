//! Pure reordering logic for the writer stage.
//!
//! Transcriptions complete out of order (each chunk runs on its own task), so
//! this buffer holds early arrivals until the contiguous `seq` before them has
//! passed through, releasing them strictly in order.

use std::collections::HashMap;

use vstd::prelude::*;

use crate::domain::models::CleanText;

verus! {

broadcast use vstd::std_specs::hash::group_hash_axioms;

/// Abstract state of a [`SequenceBuffer`]: the next `seq` to release and the
/// early arrivals held back, keyed by their `seq`.
pub struct BufferModel {
    pub expected: u64,
    pub pending: Map<u64, CleanText>,
}

/// How many consecutive sequence numbers `start, start + 1, ...` are held in
/// `pending`.
pub open spec fn run_length(pending: Map<u64, CleanText>, start: int) -> nat
    decreases u64::MAX + 1 - start,
{
    if 0 <= start <= u64::MAX && pending.contains_key(start as u64) {
        1 + run_length(pending, start + 1)
    } else {
        0
    }
}

/// The effect of handing `item` to a buffer in state `m`: the new state and the
/// items released, in order.
pub open spec fn step(m: BufferModel, item: CleanText) -> (BufferModel, Seq<CleanText>) {
    if item.seq == m.expected {
        let n = run_length(m.pending, m.expected + 1);
        let next = m.expected + 1 + n;
        (
            BufferModel {
                expected: next as u64,
                pending: m.pending.remove_keys(Set::new(|k: u64| m.expected < k < next)),
            },
            seq![item] + Seq::new(n, |j: int| m.pending[(m.expected + 1 + j) as u64]),
        )
    } else {
        (BufferModel { expected: m.expected, pending: m.pending.insert(item.seq, item) }, seq![])
    }
}

/// Hands every item of `items` to a buffer in state `m`, in order: the final
/// state and everything released along the way.
pub open spec fn feed(m: BufferModel, items: Seq<CleanText>) -> (BufferModel, Seq<CleanText>)
    decreases items.len(),
{
    if items.len() == 0 {
        (m, seq![])
    } else {
        let (m1, out1) = feed(m, items.drop_last());
        let (m2, out2) = step(m1, items.last());
        (m2, out1 + out2)
    }
}

/// The state of a freshly created buffer.
pub open spec fn initial_model() -> BufferModel {
    BufferModel { expected: 0, pending: Map::empty() }
}

/// The invariant every buffer keeps: the next expected `seq` is never held
/// back, and every held item sits under its own `seq`.
pub open spec fn model_wf(m: BufferModel) -> bool {
    &&& !m.pending.contains_key(m.expected)
    &&& forall|k: u64| #[trigger] m.pending.contains_key(k) ==> m.pending[k].seq == k
}

/// Handing an item with this `seq` to a buffer in state `m` does not overflow
/// the counter of the next expected `seq`: it does unless the run it releases
/// would end with the largest `u64`.
pub open spec fn releases_without_overflow(m: BufferModel, seq: u64) -> bool {
    seq == m.expected ==> m.expected + 1 + run_length(m.pending, m.expected + 1) <= u64::MAX
}

/// Feeding `items` to a fresh buffer, in order, never overflows the counter.
pub open spec fn feeds_without_overflow(items: Seq<CleanText>) -> bool
    decreases items.len(),
{
    items.len() == 0 || (feeds_without_overflow(items.drop_last()) && releases_without_overflow(
        feed(initial_model(), items.drop_last()).0,
        items.last().seq,
    ))
}

/// No two items carry the same `seq`.
pub open spec fn distinct_seqs(items: Seq<CleanText>) -> bool {
    forall|i: int, j: int|
        0 <= i < items.len() && 0 <= j < items.len() && i != j ==> #[trigger] items[i].seq
            != #[trigger] items[j].seq
}

/// `run_length` counts exactly the keys present from `start` on, and stops at
/// the first one missing.
proof fn lemma_run_length(pending: Map<u64, CleanText>, start: int)
    requires
        0 <= start <= u64::MAX + 1,
    ensures
        forall|j: int|
            0 <= j < run_length(pending, start) ==> #[trigger] pending.contains_key(
                (start + j) as u64,
            ) && start + j <= u64::MAX,
        start + run_length(pending, start) <= u64::MAX + 1,
        start + run_length(pending, start) <= u64::MAX ==> !pending.contains_key(
            (start + run_length(pending, start)) as u64,
        ),
    decreases u64::MAX + 1 - start,
{
    if 0 <= start <= u64::MAX && pending.contains_key(start as u64) {
        lemma_run_length(pending, start + 1);
        assert forall|j: int| 0 <= j < run_length(pending, start) implies #[trigger] pending.contains_key(
            (start + j) as u64,
        ) && start + j <= u64::MAX by {
            if j > 0 {
                assert(pending.contains_key((start + 1 + (j - 1)) as u64));
            }
        }
    }
}

/// What the buffer knows after a stream of items with distinct `seq`s has been
/// fed to a fresh buffer: everything released so far is, in order, the items
/// with `seq` 0, 1, 2, ..., each released once; every other item fed so far is
/// held back under its `seq`, which is above the next expected one.
pub open spec fn feed_invariant(items: Seq<CleanText>, m: BufferModel, out: Seq<CleanText>) -> bool {
    &&& model_wf(m)
    &&& out.len() == m.expected
    &&& forall|i: int| 0 <= i < out.len() ==> (#[trigger] out[i]).seq == i && items.contains(out[i])
    &&& forall|j: int|
        0 <= j < items.len() ==> (#[trigger] items[j]).seq < m.expected || (m.pending.contains_key(
            items[j].seq,
        ) && m.pending[items[j].seq] == items[j])
    &&& forall|k: u64| #[trigger]
        m.pending.contains_key(k) ==> k > m.expected && items.contains(m.pending[k])
}

/// Law: whatever the arrival order, a fresh buffer fed items with distinct
/// `seq`s (and never driven past the largest `seq` a `u64` holds) releases
/// exactly the items numbered 0, 1, 2, ... in that order, each once, and holds
/// every other item back until its turn.
pub proof fn lemma_feed_releases_in_order(items: Seq<CleanText>)
    requires
        distinct_seqs(items),
        feeds_without_overflow(items),
    ensures
        model_wf(feed(initial_model(), items).0),
        feed_invariant(items, feed(initial_model(), items).0, feed(initial_model(), items).1),
    decreases items.len(),
{
    if items.len() == 0 {
        let (m, out) = feed(initial_model(), items);
        assert(m == initial_model());
    } else {
        let p = items.drop_last();
        let x = items.last();
        assert forall|i: int, j: int|
            0 <= i < p.len() && 0 <= j < p.len() && i != j implies #[trigger] p[i].seq
            != #[trigger] p[j].seq by {
            assert(p[i] == items[i] && p[j] == items[j]);
        }
        lemma_feed_releases_in_order(p);
        let (m1, out1) = feed(initial_model(), p);
        let (m2, out2) = step(m1, x);
        assert(feed(initial_model(), items) == (m2, out1 + out2));
        let out = out1 + out2;
        assert(x == items[items.len() - 1]);
        assert(releases_without_overflow(m1, x.seq));
        // p's items are items too.
        assert forall|v: CleanText| p.contains(v) implies items.contains(v) by {
            let j = choose|j: int| 0 <= j < p.len() && p[j] == v;
            assert(items[j] == v);
        }
        // x's seq was never seen before.
        assert forall|j: int| 0 <= j < p.len() implies (#[trigger] p[j]).seq != x.seq by {
            assert(p[j] == items[j]);
        }
        if x.seq == m1.expected {
            let e1 = m1.expected as int;
            lemma_run_length(m1.pending, e1 + 1);
            let n = run_length(m1.pending, e1 + 1);
            let e2 = e1 + 1 + n;
            assert(m2.expected == e2);
            assert(out2 =~= seq![x] + Seq::new(n, |j: int| m1.pending[(e1 + 1 + j) as u64]));
            assert forall|i: int| 0 <= i < out.len() implies (#[trigger] out[i]).seq == i
                && items.contains(out[i]) by {
                if i < out1.len() {
                    assert(out[i] == out1[i]);
                } else if i == out1.len() {
                    assert(out[i] == x);
                    assert(items[items.len() - 1] == x);
                } else {
                    let j = i - out1.len() - 1;
                    assert(out[i] == out2[j + 1]);
                    assert(m1.pending.contains_key((e1 + 1 + j) as u64));
                    assert(out[i] == m1.pending[(e1 + 1 + j) as u64]);
                }
            }
            assert forall|j: int| 0 <= j < items.len() implies (#[trigger] items[j]).seq < m2.expected
                || (m2.pending.contains_key(items[j].seq) && m2.pending[items[j].seq] == items[j]) by {
                if j < p.len() {
                    assert(items[j] == p[j]);
                }
            }
            assert forall|k: u64| #[trigger] m2.pending.contains_key(k) implies k > m2.expected
                && items.contains(m2.pending[k]) by {
                assert(m1.pending.contains_key(k));
                if k == e2 {
                    assert(false);
                }
                if k < e2 {
                    assert(e1 < k);
                    assert(false);
                }
            }
            assert forall|k: u64| #[trigger] m2.pending.contains_key(k) implies m2.pending[k].seq
                == k by {
                assert(m1.pending.contains_key(k));
            }
        } else {
            // x arrives early: its seq is above everything released so far.
            if x.seq < m1.expected {
                let i = x.seq as int;
                assert(out1[i].seq == i);
                assert(p.contains(out1[i]));
                let j = choose|j: int| 0 <= j < p.len() && p[j] == out1[i];
                assert(p[j].seq == x.seq);
                assert(false);
            }
            assert(m2.pending == m1.pending.insert(x.seq, x));
            assert forall|j: int| 0 <= j < items.len() implies (#[trigger] items[j]).seq < m2.expected
                || (m2.pending.contains_key(items[j].seq) && m2.pending[items[j].seq] == items[j]) by {
                if j < p.len() {
                    assert(items[j] == p[j]);
                } else {
                    assert(items[j] == x);
                }
            }
            assert forall|k: u64| #[trigger] m2.pending.contains_key(k) implies k > m2.expected
                && items.contains(m2.pending[k]) by {
                if k == x.seq {
                    assert(items[items.len() - 1] == x);
                } else {
                    assert(m1.pending.contains_key(k));
                }
            }
            assert(out =~= out1);
        }
    }
}

/// Some item of `items` carries `seq` `k`.
pub open spec fn has_seq(items: Seq<CleanText>, k: int) -> bool {
    exists|j: int| 0 <= j < items.len() && #[trigger] items[j].seq == k
}

/// Law: when the `seq`s fed are exactly 0, 1, ..., n - 1 in any order, the
/// buffer releases all n items sorted by `seq` and ends up holding nothing,
/// waiting for `seq` n.
pub proof fn lemma_permutation_released_sorted(items: Seq<CleanText>, n: nat)
    requires
        distinct_seqs(items),
        feeds_without_overflow(items),
        forall|k: int| #[trigger] has_seq(items, k) <==> 0 <= k < n,
    ensures
        feed(initial_model(), items).1.len() == n,
        forall|i: int|
            0 <= i < n ==> (#[trigger] feed(initial_model(), items).1[i]).seq == i && items.contains(
                feed(initial_model(), items).1[i],
            ),
        feed(initial_model(), items).0.expected == n,
        feed(initial_model(), items).0.pending =~= Map::<u64, CleanText>::empty(),
{
    lemma_feed_releases_in_order(items);
    let (m, out) = feed(initial_model(), items);
    if m.expected > n {
        let v = out[n as int];
        assert(out[n as int].seq == n);
        let j = choose|j: int| 0 <= j < items.len() && items[j] == v;
        assert(items[j].seq == n);
        assert(has_seq(items, n as int));
        assert(false);
    }
    if m.expected < n {
        let k = m.expected as int;
        assert(has_seq(items, k));
        let j = choose|j: int| 0 <= j < items.len() && #[trigger] items[j].seq == k;
        assert(items[j].seq == m.expected);
        assert(false);
    }
    assert forall|k: u64| !#[trigger] m.pending.contains_key(k) by {
        if m.pending.contains_key(k) {
            let v = m.pending[k];
            let j = choose|j: int| 0 <= j < items.len() && items[j] == v;
            assert(items[j].seq == k);
            assert(has_seq(items, k as int));
            assert(false);
        }
    }
}

/// Law: one step keeps the buffer well formed, and what it releases carries
/// consecutive `seq`s starting at the expected one, which then moves past them;
/// the run stops just before the first `seq` not held; an item that is not the
/// expected one releases nothing and is held.
pub proof fn lemma_step_releases_consecutive(m: BufferModel, item: CleanText)
    requires
        model_wf(m),
        releases_without_overflow(m, item.seq),
    ensures
        model_wf(step(m, item).0),
        step(m, item).0.expected == m.expected + step(m, item).1.len(),
        forall|i: int|
            0 <= i < step(m, item).1.len() ==> (#[trigger] step(m, item).1[i]).seq == m.expected + i,
        item.seq == m.expected ==> step(m, item).1.len() > 0 && step(m, item).1[0] == item
            && !m.pending.contains_key(step(m, item).0.expected),
        item.seq != m.expected ==> step(m, item).1.len() == 0 && step(m, item).0.pending
            == m.pending.insert(item.seq, item),
{
    let (m2, out) = step(m, item);
    if item.seq == m.expected {
        let e = m.expected as int;
        lemma_run_length(m.pending, e + 1);
        let n = run_length(m.pending, e + 1);
        assert forall|i: int| 0 <= i < out.len() implies (#[trigger] out[i]).seq == m.expected + i by {
            if i > 0 {
                assert(m.pending.contains_key((e + 1 + (i - 1)) as u64));
            }
        }
        assert forall|k: u64| #[trigger] m2.pending.contains_key(k) implies m2.pending[k].seq
            == k by {
            assert(m.pending.contains_key(k));
        }
        assert(out[0] == item);
    }
}

/// Reorders `CleanText` arriving out of order and releases them by `seq`.
pub struct SequenceBuffer {
    expected_seq: u64,
    pending: HashMap<u64, CleanText>,
}

impl View for SequenceBuffer {
    type V = BufferModel;

    closed spec fn view(&self) -> BufferModel {
        BufferModel { expected: self.expected_seq, pending: self.pending@ }
    }
}

impl SequenceBuffer {
    /// Well-formedness of the buffer (see [`model_wf`]).
    pub open spec fn wf(&self) -> bool {
        model_wf(self@)
    }

    pub fn new() -> (buf: Self)
        ensures
            buf@ == initial_model(),
            buf.wf(),
    {
        SequenceBuffer { expected_seq: 0, pending: HashMap::new() }
    }

    /// Whether an item with this `seq` can be processed without the counter
    /// of the next expected `seq` overflowing (see
    /// [`releases_without_overflow`]).
    pub fn can_process(&self, seq: u64) -> (ok: bool)
        requires
            self.wf(),
        ensures
            ok == releases_without_overflow(self@, seq),
    {
        if seq != self.expected_seq {
            return true;
        }
        let ghost e = self.expected_seq as int;
        let mut j: u64 = self.expected_seq;
        loop
            invariant
                e == self.expected_seq,
                seq == self.expected_seq,
                e <= j,
                run_length(self@.pending, e + 1) == (j - e) + run_length(self@.pending, j + 1),
            decreases u64::MAX - j,
        {
            if j == u64::MAX {
                assert(run_length(self@.pending, j + 1) == 0);
                return false;
            }
            let next = j + 1;
            if self.pending.contains_key(&next) {
                j = next;
            } else {
                return true;
            }
        }
    }

    /// Processes an item and returns those now ready, in contiguous order.
    pub fn process(&mut self, item: CleanText) -> (ready: Vec<CleanText>)
        requires
            old(self).wf(),
            releases_without_overflow(old(self)@, item.seq),
        ensures
            final(self).wf(),
            (final(self)@, ready@) == step(old(self)@, item),
    {
        let ghost m0 = self@;
        let mut ready: Vec<CleanText> = Vec::new();
        if item.seq == self.expected_seq {
            let ghost e0 = self.expected_seq as int;
            ready.push(item);
            self.expected_seq = self.expected_seq + 1;
            loop
                invariant
                    model_wf(m0),
                    m0.expected == e0,
                    e0 < self.expected_seq,
                    ready@.len() == self.expected_seq - e0,
                    ready@[0] == item,
                    forall|j: int|
                        0 <= j < self.expected_seq - e0 - 1 ==> ready@[j + 1] == #[trigger] m0.pending[(e0 + 1 + j) as u64],
                    self.pending@ == m0.pending.remove_keys(
                        Set::new(|k: u64| e0 < k < self.expected_seq),
                    ),
                    run_length(m0.pending, e0 + 1) == (self.expected_seq - e0 - 1) + run_length(
                        m0.pending,
                        self.expected_seq as int,
                    ),
                    e0 + 1 + run_length(m0.pending, e0 + 1) <= u64::MAX,
                ensures
                    !m0.pending.contains_key(self.expected_seq),
                decreases u64::MAX - self.expected_seq,
            {
                let key = self.expected_seq;
                match self.pending.remove(&key) {
                    Some(next) => {
                        assert(m0.pending.contains_key(key));
                        ready.push(next);
                        self.expected_seq = self.expected_seq + 1;
                        assert(self.pending@ =~= m0.pending.remove_keys(
                            Set::new(|k: u64| e0 < k < self.expected_seq),
                        ));
                    },
                    None => {
                        assert(!m0.pending.contains_key(key));
                        break;
                    },
                }
            }
            let ghost n = run_length(m0.pending, e0 + 1);
            assert(run_length(m0.pending, self.expected_seq as int) == 0);
            assert(ready@ =~= seq![item] + Seq::new(n, |j: int| m0.pending[(e0 + 1 + j) as u64]));
        } else {
            let s = item.seq;
            self.pending.insert(s, item);
        }
        ready
    }
}

} // verus!
