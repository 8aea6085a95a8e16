use vstd::prelude::*;

verus! {

/// The samples a buffer of capacity `cap` holds after `value` is recorded
/// into `samples`: the oldest one leaves first once the buffer is full.
pub open spec fn record_step<T>(samples: Seq<T>, cap: nat, value: T) -> Seq<T> {
    if samples.len() >= cap && samples.len() > 0 {
        samples.drop_first().push(value)
    } else {
        samples.push(value)
    }
}

/// The samples of a buffer of capacity `cap` that started empty and had
/// `values` recorded into it, in order.
pub open spec fn replay<T>(cap: nat, values: Seq<T>) -> Seq<T>
    decreases values.len(),
{
    if values.len() == 0 {
        Seq::empty()
    } else {
        record_step(replay(cap, values.drop_last()), cap, values.last())
    }
}

/// A rolling window over the most recent samples of one metric stream.
pub struct HistoryBuffer<T> {
    samples: Vec<T>,
    capacity: usize,
}

impl<T> HistoryBuffer<T> {
    pub closed spec fn samples(&self) -> Seq<T> {
        self.samples@
    }

    pub closed spec fn capacity(&self) -> nat {
        self.capacity as nat
    }

    pub open spec fn wf(&self) -> bool {
        &&& self.capacity() > 0
        &&& self.samples().len() <= self.capacity()
    }

    /// An empty buffer that keeps at most `capacity` samples.
    pub fn new(capacity: usize) -> (r: Self)
        requires
            capacity > 0,
        ensures
            r.wf(),
            r.capacity() == capacity,
            r.samples() == Seq::<T>::empty(),
    {
        HistoryBuffer { samples: Vec::new(), capacity }
    }

    /// Appends `value`, evicting the oldest sample first when full.
    pub fn record(&mut self, value: T)
        requires
            old(self).wf(),
        ensures
            final(self).wf(),
            final(self).capacity() == old(self).capacity(),
            final(self).samples() == record_step(old(self).samples(), old(self).capacity(), value),
    {
        if self.samples.len() >= self.capacity {
            self.samples.remove(0);
        }
        self.samples.push(value);
    }

    /// The samples, oldest first.
    pub fn series(&self) -> (r: &Vec<T>)
        ensures
            r@ == self.samples(),
    {
        &self.samples
    }

    pub fn len(&self) -> (r: usize)
        ensures
            r == self.samples().len(),
    {
        self.samples.len()
    }

    pub fn capacity_of(&self) -> (r: usize)
        ensures
            r == self.capacity(),
    {
        self.capacity
    }
}

/// After any `values` are recorded into an empty buffer of capacity `cap`,
/// it holds exactly the last `min(n, cap)` of them, oldest first.
pub proof fn lemma_history_window<T>(cap: nat, values: Seq<T>)
    requires
        cap > 0,
    ensures
        replay(cap, values).len() == if values.len() < cap { values.len() } else { cap },
        replay(cap, values) == values.subrange(
            values.len() - replay(cap, values).len(),
            values.len() as int,
        ),
    decreases values.len(),
{
    if values.len() > 0 {
        let prev = values.drop_last();
        lemma_history_window(cap, prev);
        let p = replay(cap, prev);
        let n = values.len();
        if p.len() >= cap {
            assert(p.drop_first().push(values.last()) =~= values.subrange(n - cap, n as int));
        } else {
            assert(p.push(values.last()) =~= values.subrange(n - p.len() - 1, n as int));
        }
    } else {
        assert(values.subrange(0, 0) =~= Seq::<T>::empty());
    }
}

/// A run of buffer states, each one record after the one before, starting
/// empty, ends in the replay of the recorded values.
pub proof fn lemma_run_replays<T>(cap: nat, states: Seq<Seq<T>>, values: Seq<T>, i: int)
    requires
        states.len() == values.len() + 1,
        states[0] == Seq::<T>::empty(),
        forall|k: int| 0 <= k < values.len() ==> #[trigger] states[k + 1] == record_step(states[k], cap, values[k]),
        0 <= i <= values.len(),
    ensures
        states[i] == replay(cap, values.subrange(0, i)),
    decreases i,
{
    if i > 0 {
        lemma_run_replays(cap, states, values, i - 1);
        let pre = values.subrange(0, i);
        assert(pre.drop_last() =~= values.subrange(0, i - 1));
        assert(states[(i - 1) + 1] == record_step(states[i - 1], cap, values[i - 1]));
    } else {
        assert(values.subrange(0, 0) =~= Seq::<T>::empty());
    }
}

/// After any `n` records into a buffer of capacity `cap` that started empty,
/// it holds `min(n, cap)` samples: the last ones recorded, oldest first.
pub proof fn lemma_run_window<T>(cap: nat, states: Seq<Seq<T>>, values: Seq<T>)
    requires
        cap > 0,
        states.len() == values.len() + 1,
        states[0] == Seq::<T>::empty(),
        forall|k: int| 0 <= k < values.len() ==> #[trigger] states[k + 1] == record_step(states[k], cap, values[k]),
    ensures
        states.last().len() == if values.len() < cap { values.len() } else { cap },
        states.last() == values.subrange(values.len() - states.last().len(), values.len() as int),
{
    lemma_run_replays(cap, states, values, values.len() as int);
    assert(values.subrange(0, values.len() as int) =~= values);
    lemma_history_window(cap, values);
}

} // verus!
