//! The mathematical model of one cell family of the layered cache, and what
//! holds of it.
//!
//! A family has two generations of values: the value first observed for a
//! cell, and the value last written to it. Writes shadow first-observed
//! values on reads; first-observed values are what a diff reports as the state
//! before the execution.

use crate::error::StateError;
use vstd::prelude::*;

verus! {

/// What one cell held before the execution and what it holds after it.
#[derive(PartialEq, Eq, Debug)]
pub struct CellDiff<K, V> {
    pub key: K,
    pub before: V,
    pub after: V,
}

/// The two generations of one cell family.
#[verifier::ext_equal]
#[verifier::reject_recursive_types(K)]
pub struct Layers<K, V> {
    /// The value first observed for each cell that a read resolved.
    pub initial_values: Map<K, V>,
    /// The value last written to each cell that was written.
    pub writes: Map<K, V>,
    /// The written cells, in the order in which each was first written.
    pub write_order: Seq<K>,
}

/// One operation on a cell family.
pub enum LayerOp<K, V> {
    /// A read of `key`; `answer` is what the source gives if it is asked.
    Read { key: K, answer: Result<V, StateError> },
    /// A write of `value` to `key`.
    Write { key: K, value: V },
}

impl<K, V> Layers<K, V> {
    /// The family in which no cell was read or written.
    pub open spec fn empty() -> Self {
        Layers { initial_values: Map::empty(), writes: Map::empty(), write_order: Seq::empty() }
    }

    /// The write order lists the written cells, each once.
    pub open spec fn consistent(self) -> bool {
        &&& self.write_order.no_duplicates()
        &&& forall|key: K| self.write_order.contains(key) <==> self.writes.contains_key(key)
    }

    /// Whether the cache holds a value for `key` in either generation.
    pub open spec fn resolved(self, key: K) -> bool {
        self.writes.contains_key(key) || self.initial_values.contains_key(key)
    }

    /// The cached value of `key`: the written one if there is one, else the
    /// first-observed one.
    pub open spec fn read(self, key: K) -> Option<V> {
        if self.writes.contains_key(key) {
            Some(self.writes[key])
        } else if self.initial_values.contains_key(key) {
            Some(self.initial_values[key])
        } else {
            None
        }
    }

    /// Records `value` as first observed for `key`, unless a first-observed
    /// value is already recorded.
    pub open spec fn record_initial(self, key: K, value: V) -> Self {
        if self.initial_values.contains_key(key) {
            self
        } else {
            Layers { initial_values: self.initial_values.insert(key, value), ..self }
        }
    }

    /// Records `value` as last written to `key`.
    pub open spec fn record_write(self, key: K, value: V) -> Self {
        Layers {
            writes: self.writes.insert(key, value),
            write_order: if self.writes.contains_key(key) {
                self.write_order
            } else {
                self.write_order.push(key)
            },
            ..self
        }
    }

    /// The family after a read of `key` to which the source, if asked,
    /// answers `answer`.
    pub open spec fn read_through(self, key: K, answer: Result<V, StateError>) -> Self {
        if self.resolved(key) {
            self
        } else {
            match answer {
                Ok(value) => self.record_initial(key, value),
                Err(_) => self,
            }
        }
    }

    /// What a read of `key` returns when the source, if asked, answers
    /// `answer`.
    pub open spec fn read_through_result(self, key: K, answer: Result<V, StateError>) -> Result<
        V,
        StateError,
    > {
        match self.read(key) {
            Some(value) => Ok(value),
            None => answer,
        }
    }

    /// The value that `key` had before the execution, as far as the cache
    /// knows: the first-observed one, or `uninitialized`.
    pub open spec fn before(self, key: K, uninitialized: V) -> V {
        if self.initial_values.contains_key(key) {
            self.initial_values[key]
        } else {
            uninitialized
        }
    }

    /// What the diff reports for `key`: nothing if it was not written, else
    /// its value before and after.
    pub open spec fn diff_at(self, key: K, uninitialized: V) -> Option<(V, V)> {
        if self.writes.contains_key(key) {
            Some((self.before(key, uninitialized), self.writes[key]))
        } else {
            None
        }
    }

    /// The diff of the family: one entry for each written cell, in the order
    /// of first writes.
    pub open spec fn diff(self, uninitialized: V) -> Seq<CellDiff<K, V>> {
        Seq::new(
            self.write_order.len(),
            |i: int|
                CellDiff {
                    key: self.write_order[i],
                    before: self.before(self.write_order[i], uninitialized),
                    after: self.writes[self.write_order[i]],
                },
        )
    }

    /// The family after `op`.
    pub open spec fn step(self, op: LayerOp<K, V>) -> Self {
        match op {
            LayerOp::Read { key, answer } => self.read_through(key, answer),
            LayerOp::Write { key, value } => self.record_write(key, value),
        }
    }

    /// Whether `op` makes the cache ask the source for `key`.
    pub open spec fn asks_source(self, op: LayerOp<K, V>, key: K) -> bool {
        match op {
            LayerOp::Read { key: read_key, answer } => read_key == key && !self.resolved(key),
            LayerOp::Write { key: written_key, value } => false,
        }
    }

    /// The family after the operations `ops`, in order.
    pub open spec fn run(self, ops: Seq<LayerOp<K, V>>) -> Self
        decreases ops.len(),
    {
        if ops.len() == 0 {
            self
        } else {
            self.run(ops.drop_last()).step(ops.last())
        }
    }

    /// How often the operations `ops`, run in order, make the cache ask the
    /// source for `key`.
    pub open spec fn source_reads(self, ops: Seq<LayerOp<K, V>>, key: K) -> nat
        decreases ops.len(),
    {
        if ops.len() == 0 {
            0
        } else {
            let earlier = self.source_reads(ops.drop_last(), key);
            if self.run(ops.drop_last()).asks_source(ops.last(), key) {
                earlier + 1
            } else {
                earlier
            }
        }
    }

    /// Every operation keeps the write order consistent with the writes.
    pub proof fn lemma_step_consistent(self, op: LayerOp<K, V>)
        requires
            self.consistent(),
        ensures
            self.step(op).consistent(),
    {
        match op {
            LayerOp::Read { key, answer } => {
                let after = self.read_through(key, answer);
                assert(after.writes == self.writes);
                assert(after.write_order == self.write_order);
            },
            LayerOp::Write { key, value } => {
                let after = self.record_write(key, value);
                let order = self.write_order;
                if self.writes.contains_key(key) {
                    assert(after.write_order == order);
                    assert forall|k: K| after.write_order.contains(k) <==> after.writes.contains_key(
                        k,
                    ) by {
                        assert(order.contains(k) <==> self.writes.contains_key(k));
                    }
                } else {
                    assert(!order.contains(key));
                    assert(after.write_order == order.push(key));
                    assert forall|i: int, j: int|
                        0 <= i < after.write_order.len() && 0 <= j < after.write_order.len() && i
                            != j implies after.write_order[i] != after.write_order[j] by {
                        if i < order.len() && j < order.len() {
                            assert(order[i] != order[j]);
                        } else if i < order.len() {
                            assert(order.contains(order[i]));
                        } else {
                            assert(order.contains(order[j]));
                        }
                    }
                    assert forall|k: K| after.write_order.contains(k) <==> after.writes.contains_key(
                        k,
                    ) by {
                        assert(order.contains(k) <==> self.writes.contains_key(k));
                        if order.contains(k) {
                            let i = choose|i: int| 0 <= i < order.len() && order[i] == k;
                            assert(after.write_order[i] == k);
                        }
                        if k == key {
                            assert(after.write_order[order.len() as int] == k);
                        }
                        if after.write_order.contains(k) && k != key {
                            let i = choose|i: int|
                                0 <= i < after.write_order.len() && after.write_order[i] == k;
                            assert(order[i] == k);
                        }
                    }
                }
            },
        }
    }

    /// Reading a cell twice in a row gives the same value both times, and the
    /// second read does not ask the source, provided the first read
    /// succeeded.
    pub proof fn lemma_read_twice(
        self,
        key: K,
        first_answer: Result<V, StateError>,
        second_answer: Result<V, StateError>,
    )
        requires
            self.read_through_result(key, first_answer) is Ok,
        ensures
            self.read_through(key, first_answer).read_through_result(key, second_answer)
                == self.read_through_result(key, first_answer),
            self.read_through(key, first_answer).read_through(key, second_answer)
                == self.read_through(key, first_answer),
            !self.read_through(key, first_answer).asks_source(
                LayerOp::Read { key, answer: second_answer },
                key,
            ),
            self.source_reads(
                seq![
                    LayerOp::Read { key, answer: first_answer },
                    LayerOp::Read { key, answer: second_answer },
                ],
                key,
            ) <= 1,
    {
        let first = LayerOp::Read { key, answer: first_answer };
        let second = LayerOp::Read { key, answer: second_answer };
        let both = seq![first, second];
        assert(both.drop_last() =~= seq![first]);
        assert(seq![first].drop_last() =~= Seq::<LayerOp<K, V>>::empty());
        reveal_with_fuel(Layers::run, 3);
        reveal_with_fuel(Layers::source_reads, 3);
        assert(self.run(seq![first]) == self.read_through(key, first_answer));
    }

    /// A read that follows a write of the cell returns the written value,
    /// whatever the source would answer and whatever was cached before.
    pub proof fn lemma_write_shadows(self, key: K, value: V, answer: Result<V, StateError>)
        ensures
            self.record_write(key, value).read(key) == Some(value),
            self.record_write(key, value).read_through_result(key, answer) == Ok::<V, StateError>(
                value,
            ),
            self.record_write(key, value).read_through(key, answer) == self.record_write(
                key,
                value,
            ),
            !self.record_write(key, value).asks_source(LayerOp::Read { key, answer }, key),
    {
    }

    /// A cell that is read from the source and then written is reported with
    /// the source's value as its value before.
    pub proof fn lemma_read_then_write_diff(
        self,
        key: K,
        source_value: V,
        written: V,
        uninitialized: V,
    )
        requires
            !self.resolved(key),
        ensures
            self.read_through(key, Ok(source_value)).record_write(key, written).diff_at(
                key,
                uninitialized,
            ) == Some((source_value, written)),
            self.consistent() ==> self.read_through(key, Ok(source_value)).record_write(
                key,
                written,
            ).diff(uninitialized).contains(
                CellDiff { key, before: source_value, after: written },
            ),
    {
        if self.consistent() {
            let read = self.read_through(key, Ok(source_value));
            self.lemma_step_consistent(LayerOp::Read { key, answer: Ok(source_value) });
            read.lemma_step_consistent(LayerOp::Write { key, value: written });
            read.record_write(key, written).lemma_diff_holds(key, uninitialized);
        }
    }

    /// A cell that is written without ever having been read is reported with
    /// the uninitialized value as its value before.
    pub proof fn lemma_write_only_diff(self, key: K, written: V, uninitialized: V)
        requires
            !self.initial_values.contains_key(key),
        ensures
            self.record_write(key, written).diff_at(key, uninitialized) == Some(
                (uninitialized, written),
            ),
            self.consistent() ==> self.record_write(key, written).diff(uninitialized).contains(
                CellDiff { key, before: uninitialized, after: written },
            ),
    {
        if self.consistent() {
            self.lemma_step_consistent(LayerOp::Write { key, value: written });
            self.record_write(key, written).lemma_diff_holds(key, uninitialized);
        }
    }

    /// Reads never put a cell into the diff: a cell that no operation of
    /// `ops` writes, and that was not written before, is not reported.
    pub proof fn lemma_unwritten_not_in_diff(self, ops: Seq<LayerOp<K, V>>, key: K, uninitialized: V)
        requires
            !self.writes.contains_key(key),
            forall|i: int|
                0 <= i < ops.len() ==> !(#[trigger] ops[i] matches LayerOp::Write { key: written, .. }
                    && written == key),
        ensures
            self.run(ops).diff_at(key, uninitialized) is None,
            self.consistent() ==> forall|i: int|
                0 <= i < self.run(ops).diff(uninitialized).len() ==> (#[trigger] self.run(ops).diff(
                    uninitialized,
                )[i]).key != key,
        decreases ops.len(),
    {
        if self.consistent() {
            self.lemma_run_consistent(ops);
            self.run(ops).lemma_diff_entries(uninitialized);
        }
        if ops.len() > 0 {
            let earlier = ops.drop_last();
            assert forall|i: int| 0 <= i < earlier.len() implies !(#[trigger] earlier[i] matches LayerOp::Write {
                key: written,
                ..
            } && written == key) by {
                assert(earlier[i] == ops[i]);
            }
            self.lemma_unwritten_not_in_diff(earlier, key, uninitialized);
            assert(ops.last() == ops[ops.len() - 1]);
        }
    }

    /// First-observed values come from reads alone: operations that do not
    /// read a cell leave it without a first-observed value if it had none,
    /// whatever they write.
    pub proof fn lemma_writes_record_no_initial_value(self, ops: Seq<LayerOp<K, V>>, key: K)
        requires
            !self.initial_values.contains_key(key),
            forall|i: int|
                0 <= i < ops.len() ==> !(#[trigger] ops[i] matches LayerOp::Read { key: read, .. }
                    && read == key),
        ensures
            !self.run(ops).initial_values.contains_key(key),
        decreases ops.len(),
    {
        if ops.len() > 0 {
            let earlier = ops.drop_last();
            assert forall|i: int| 0 <= i < earlier.len() implies !(#[trigger] earlier[i] matches LayerOp::Read {
                key: read,
                ..
            } && read == key) by {
                assert(earlier[i] == ops[i]);
            }
            self.lemma_writes_record_no_initial_value(earlier, key);
            assert(ops.last() == ops[ops.len() - 1]);
        }
    }

    /// No operation removes a cell from the cache or changes its
    /// first-observed value, and once a cell is resolved no operation asks
    /// the source for it again.
    pub proof fn lemma_resolved_for_good(self, ops: Seq<LayerOp<K, V>>, key: K)
        requires
            self.resolved(key),
        ensures
            self.run(ops).resolved(key),
            self.initial_values.contains_key(key) ==> self.run(ops).initial_values.contains_key(key)
                && self.run(ops).initial_values[key] == self.initial_values[key],
            self.writes.contains_key(key) ==> self.run(ops).writes.contains_key(key),
            self.source_reads(ops, key) == 0,
        decreases ops.len(),
    {
        if ops.len() > 0 {
            self.lemma_resolved_for_good(ops.drop_last(), key);
        }
    }

    /// The operations `ops` ask the source for a cell at most once, unless
    /// the source fails to answer.
    pub proof fn lemma_one_source_read(self, ops: Seq<LayerOp<K, V>>, key: K)
        requires
            forall|i: int|
                0 <= i < ops.len() ==> !(#[trigger] ops[i] matches LayerOp::Read { answer, .. }
                    && answer is Err),
        ensures
            self.source_reads(ops, key) <= 1,
            self.source_reads(ops, key) == 1 ==> self.run(ops).resolved(key),
        decreases ops.len(),
    {
        if ops.len() > 0 {
            let earlier = ops.drop_last();
            assert forall|i: int| 0 <= i < earlier.len() implies !(#[trigger] earlier[i] matches LayerOp::Read {
                answer,
                ..
            } && answer is Err) by {
                assert(earlier[i] == ops[i]);
            }
            self.lemma_one_source_read(earlier, key);
            assert(ops.last() == ops[ops.len() - 1]);
            if self.source_reads(earlier, key) == 1 {
                self.run(earlier).lemma_resolved_for_good(seq![ops.last()], key);
                assert(seq![ops.last()].drop_last() =~= Seq::<LayerOp<K, V>>::empty());
                reveal_with_fuel(Layers::run, 2);
                reveal_with_fuel(Layers::source_reads, 2);
            }
        }
    }

    /// The operations `ops` keep the write order consistent with the writes.
    pub proof fn lemma_run_consistent(self, ops: Seq<LayerOp<K, V>>)
        requires
            self.consistent(),
        ensures
            self.run(ops).consistent(),
        decreases ops.len(),
    {
        if ops.len() > 0 {
            self.lemma_run_consistent(ops.drop_last());
            self.run(ops.drop_last()).lemma_step_consistent(ops.last());
        }
    }

    /// The diff holds, for a written cell, the entry that `diff_at` gives.
    pub proof fn lemma_diff_holds(self, key: K, uninitialized: V)
        requires
            self.consistent(),
            self.writes.contains_key(key),
        ensures
            self.diff(uninitialized).contains(
                CellDiff {
                    key,
                    before: self.before(key, uninitialized),
                    after: self.writes[key],
                },
            ),
    {
        assert(self.write_order.contains(key));
        let i = choose|i: int| 0 <= i < self.write_order.len() && self.write_order[i] == key;
        assert(self.diff(uninitialized)[i] == CellDiff {
            key,
            before: self.before(key, uninitialized),
            after: self.writes[key],
        });
    }

    /// The diff has exactly one entry for each written cell and none for any
    /// other: the entry that `diff_at` gives.
    pub proof fn lemma_diff_entries(self, uninitialized: V)
        requires
            self.consistent(),
        ensures
            forall|i: int|
                0 <= i < self.diff(uninitialized).len() ==> self.diff_at(
                    (#[trigger] self.diff(uninitialized)[i]).key,
                    uninitialized,
                ) == Some((self.diff(uninitialized)[i].before, self.diff(uninitialized)[i].after)),
            forall|i: int, j: int|
                0 <= i < j < self.diff(uninitialized).len() ==> (#[trigger] self.diff(
                    uninitialized,
                )[i]).key != (#[trigger] self.diff(uninitialized)[j]).key,
            forall|key: K| #[trigger]
                self.writes.contains_key(key) ==> exists|i: int|
                    0 <= i < self.diff(uninitialized).len() && (#[trigger] self.diff(
                        uninitialized,
                    )[i]).key == key,
    {
        let diff = self.diff(uninitialized);
        assert forall|i: int| 0 <= i < diff.len() implies self.diff_at(
            (#[trigger] diff[i]).key,
            uninitialized,
        ) == Some((diff[i].before, diff[i].after)) by {
            assert(self.write_order.contains(self.write_order[i]));
        }
        assert forall|key: K| #[trigger] self.writes.contains_key(key) implies exists|i: int|
            0 <= i < diff.len() && (#[trigger] diff[i]).key == key by {
            assert(self.write_order.contains(key));
            let i = choose|i: int| 0 <= i < self.write_order.len() && self.write_order[i] == key;
            assert(diff[i].key == key);
        }
    }
}

} // verus!
