use vstd::prelude::*;

verus! {

/// Fixed-capacity FIFO queue of optional items.
///
/// A slot holds `Option<T>`: a payload of `None` is the poison token that
/// tells a consumer to stop, while the job counter distinguishes a live
/// `None` payload from an empty slot. The abstract state (the view) is the
/// sequence of live payloads in the order they were enqueued.
///
/// This type holds the storage, the indices and the counter; callers that
/// share it across tasks serialize access themselves and block until the
/// precondition of `enqueue_item` or `dequeue` holds.
pub struct MultiThreadedRingBuffer<T> {
    num_jobs: usize,
    inner: InnerRingBuffer<T>,
}

/// The backing array together with the enqueue and dequeue positions.
struct InnerRingBuffer<T> {
    items: Vec<Option<T>>,
    enqueue_index: usize,
    dequeue_index: usize,
}

impl<T> InnerRingBuffer<T> {
    /// Instantiates the storage: `capacity` empty slots, both indices at the start.
    fn new(capacity: usize) -> (r: Self)
        ensures
            r.items@.len() == capacity,
            forall|i: int| 0 <= i < capacity ==> r.items@[i] is None,
            r.enqueue_index == 0,
            r.dequeue_index == 0,
    {
        let mut items: Vec<Option<T>> = Vec::new();
        let mut i: usize = 0;
        while i < capacity
            invariant
                i <= capacity,
                items@.len() == i,
                forall|j: int| 0 <= j < i ==> items@[j] is None,
            decreases capacity - i,
        {
            items.push(None);
            i = i + 1;
        }
        InnerRingBuffer { items, enqueue_index: 0, dequeue_index: 0 }
    }
}

impl<T> MultiThreadedRingBuffer<T> {
    /// Number of slots, fixed at construction.
    pub closed spec fn spec_capacity(&self) -> int {
        self.inner.items@.len() as int
    }

    /// Structural invariant: indices stay inside the storage, the job count
    /// never exceeds the capacity, and the enqueue position is the dequeue
    /// position advanced by the job count, modulo the capacity.
    pub closed spec fn wf(&self) -> bool {
        &&& self.inner.items@.len() >= 1
        &&& (self.inner.enqueue_index as int) < self.spec_capacity()
        &&& (self.inner.dequeue_index as int) < self.spec_capacity()
        &&& (self.num_jobs as int) <= self.spec_capacity()
        &&& (self.inner.enqueue_index as int) == Self::wrap(
            self.inner.dequeue_index as int + self.num_jobs as int,
            self.spec_capacity(),
        )
    }

    /// Reduction of an index below `2 * capacity` into the storage range.
    pub closed spec fn wrap(i: int, capacity: int) -> int {
        if i < capacity {
            i
        } else {
            i - capacity
        }
    }

    /// The live payloads, oldest first.
    pub closed spec fn view(&self) -> Seq<Option<T>> {
        let cap = self.spec_capacity();
        let deq = self.inner.dequeue_index as int;
        let jobs = self.num_jobs as int;
        if deq + jobs <= cap {
            self.inner.items@.subrange(deq, deq + jobs)
        } else {
            self.inner.items@.subrange(deq, cap) + self.inner.items@.subrange(0, deq + jobs - cap)
        }
    }

    /// A buffer in this state is indistinguishable from one just constructed
    /// with the same capacity: every slot is empty and both indices are at
    /// the start.
    pub closed spec fn fresh(&self) -> bool {
        &&& self.num_jobs == 0
        &&& self.inner.enqueue_index == 0
        &&& self.inner.dequeue_index == 0
        &&& forall|i: int| 0 <= i < self.spec_capacity() ==> self.inner.items@[i] is None
    }

    /// Instantiates the buffer with `capacity` slots, all empty.
    pub fn new(capacity: usize) -> (r: Self)
        requires
            capacity >= 1,
        ensures
            r.wf(),
            r@ =~= Seq::<Option<T>>::empty(),
            r.spec_capacity() == capacity,
            r.fresh(),
    {
        MultiThreadedRingBuffer { num_jobs: 0, inner: InnerRingBuffer::new(capacity) }
    }

    /// The job count: how many live payloads the buffer holds.
    pub fn len(&self) -> (n: usize)
        requires
            self.wf(),
        ensures
            n == self@.len(),
    {
        self.num_jobs
    }

    /// The fixed capacity.
    pub fn capacity(&self) -> (c: usize)
        requires
            self.wf(),
        ensures
            c == self.spec_capacity(),
    {
        self.inner.items.len()
    }

    /// The job count never leaves `[0, capacity]`.
    pub proof fn lemma_job_count_bounded(&self)
        requires
            self.wf(),
        ensures
            0 <= self@.len() <= self.spec_capacity(),
    {
    }

    /// Adds one payload, poison token included, at the enqueue position.
    ///
    /// The precondition is the admission rule: a caller may enter only while
    /// the buffer holds fewer than `capacity` live payloads. A shared handle
    /// waits until this holds before calling.
    pub fn enqueue_item(&mut self, item: Option<T>)
        requires
            old(self).wf(),
            old(self)@.len() < old(self).spec_capacity(),
        ensures
            final(self).wf(),
            final(self).spec_capacity() == old(self).spec_capacity(),
            final(self)@ =~= old(self)@.push(item),
    {
        let cap = self.inner.items.len();
        proof {
            assert(self@.len() == self.num_jobs as int);
            assert(self.num_jobs < cap);
        }
        let enqueue_index = self.inner.enqueue_index;
        self.inner.items.remove(enqueue_index);
        self.inner.items.insert(enqueue_index, item);
        self.num_jobs = self.num_jobs + 1;
        self.inner.enqueue_index = if enqueue_index + 1 == cap {
            0
        } else {
            enqueue_index + 1
        };
    }

    /// Adds a real item; the admission rule is that of `enqueue_item`.
    pub fn enqueue(&mut self, item: T)
        requires
            old(self).wf(),
            old(self)@.len() < old(self).spec_capacity(),
        ensures
            final(self).wf(),
            final(self).spec_capacity() == old(self).spec_capacity(),
            final(self)@ =~= old(self)@.push(Some(item)),
    {
        self.enqueue_item(Some(item));
    }

    /// Takes the oldest live payload, leaving its slot empty.
    ///
    /// The precondition is the admission rule: a caller may enter only while
    /// the buffer holds at least one live payload. The result is exactly the
    /// payload enqueued earliest among those still live, so payloads leave in
    /// first-in-first-out order; a result of `None` is a poison token.
    pub fn dequeue(&mut self) -> (item: Option<T>)
        requires
            old(self).wf(),
            old(self)@.len() > 0,
        ensures
            final(self).wf(),
            final(self).spec_capacity() == old(self).spec_capacity(),
            item == old(self)@[0],
            final(self)@ =~= old(self)@.drop_first(),
    {
        let dequeue_index = self.inner.dequeue_index;
        let item = self.inner.items.remove(dequeue_index);
        self.inner.items.insert(dequeue_index, None);
        self.num_jobs = self.num_jobs - 1;
        let cap = self.inner.items.len();
        self.inner.dequeue_index = if dequeue_index + 1 == cap {
            0
        } else {
            dequeue_index + 1
        };
        item
    }

    /// Fills the whole buffer with poison tokens, one per slot.
    ///
    /// Sequentially this is possible only from the empty state: with live
    /// payloads present the loop would stop at the admission rule of
    /// `enqueue_item` with no other task to drain it. A shared handle poisons
    /// a busy buffer by enqueuing `capacity` tokens one at a time, waiting at
    /// each as `enqueue_item` demands.
    pub fn poison(&mut self)
        requires
            old(self).wf(),
            old(self)@.len() == 0,
        ensures
            final(self).wf(),
            final(self).spec_capacity() == old(self).spec_capacity(),
            final(self)@ =~= Seq::new(old(self).spec_capacity() as nat, |i: int| None::<T>),
    {
        let cap = self.inner.items.len();
        let mut k: usize = 0;
        while k < cap
            invariant
                self.wf(),
                self.spec_capacity() == cap,
                k <= cap,
                self@ =~= Seq::new(k as nat, |i: int| None::<T>),
            decreases cap - k,
        {
            self.enqueue_item(None);
            k = k + 1;
        }
    }

    /// Resets a saturated buffer to the empty state so it can be used again.
    ///
    /// Valid only when the job count equals the capacity, which is the state
    /// `poison` leaves behind; on any other state nothing changes and the
    /// result is `false` so the caller can report it.
    pub fn clear_poison(&mut self) -> (cleared: bool)
        requires
            old(self).wf(),
        ensures
            final(self).wf(),
            final(self).spec_capacity() == old(self).spec_capacity(),
            cleared == (old(self)@.len() == old(self).spec_capacity()),
            cleared ==> final(self).fresh() && final(self)@ =~= Seq::<Option<T>>::empty(),
            !cleared ==> *final(self) == *old(self),
    {
        let cap = self.inner.items.len();
        if self.num_jobs == cap {
            self.inner = InnerRingBuffer::new(cap);
            self.num_jobs = 0;
            true
        } else {
            false
        }
    }

    /// Resets to the empty state unconditionally, discarding live payloads.
    pub fn clear(&mut self)
        requires
            old(self).wf(),
        ensures
            final(self).wf(),
            final(self).spec_capacity() == old(self).spec_capacity(),
            final(self).fresh(),
            final(self)@ =~= Seq::<Option<T>>::empty(),
    {
        let cap = self.inner.items.len();
        self.num_jobs = 0;
        self.inner = InnerRingBuffer::new(cap);
    }
}


/// One operation of a buffer history, at the level of the abstract state
/// the contracts of `enqueue_item` and `dequeue` describe.
pub enum RingOp<T> {
    /// An `enqueue_item` of this payload.
    Push(Option<T>),
    /// A `dequeue`.
    Take,
}

/// Whether a history respects the admission rules from contents `s` under
/// capacity `cap`: no push on a full buffer, no take on an empty one.
pub open spec fn ops_respect_capacity<T>(s: Seq<Option<T>>, ops: Seq<RingOp<T>>, cap: int) -> bool
    decreases ops.len(),
{
    if ops.len() == 0 {
        true
    } else {
        match ops.first() {
            RingOp::Push(x) => s.len() < cap && ops_respect_capacity(
                s.push(x),
                ops.drop_first(),
                cap,
            ),
            RingOp::Take => s.len() > 0 && ops_respect_capacity(
                s.drop_first(),
                ops.drop_first(),
                cap,
            ),
        }
    }
}

/// The payloads a history takes out of the buffer, in the order the takes
/// return them, per the contracts of `enqueue_item` and `dequeue`.
pub open spec fn ops_taken<T>(s: Seq<Option<T>>, ops: Seq<RingOp<T>>) -> Seq<Option<T>>
    decreases ops.len(),
{
    if ops.len() == 0 {
        Seq::<Option<T>>::empty()
    } else {
        match ops.first() {
            RingOp::Push(x) => ops_taken(s.push(x), ops.drop_first()),
            RingOp::Take => seq![s.first()] + ops_taken(s.drop_first(), ops.drop_first()),
        }
    }
}

/// The payloads a history pushes, in order.
pub open spec fn ops_pushed<T>(ops: Seq<RingOp<T>>) -> Seq<Option<T>>
    decreases ops.len(),
{
    if ops.len() == 0 {
        Seq::<Option<T>>::empty()
    } else {
        match ops.first() {
            RingOp::Push(x) => seq![x] + ops_pushed(ops.drop_first()),
            RingOp::Take => ops_pushed(ops.drop_first()),
        }
    }
}

/// The buffer never returns a payload out of first-in-first-out order: over
/// any history of enqueues and dequeues that respects the capacity, the
/// payloads taken out are exactly a prefix of the initial contents followed
/// by the pushed payloads, in arrival order.
pub proof fn lemma_fifo_history<T>(s: Seq<Option<T>>, ops: Seq<RingOp<T>>, cap: int)
    requires
        ops_respect_capacity(s, ops, cap),
    ensures
        ops_taken(s, ops).len() <= s.len() + ops_pushed(ops).len(),
        ops_taken(s, ops) =~= (s + ops_pushed(ops)).take(ops_taken(s, ops).len() as int),
    decreases ops.len(),
{
    if ops.len() == 0 {
    } else {
        match ops.first() {
            RingOp::Push(x) => {
                lemma_fifo_history(s.push(x), ops.drop_first(), cap);
                assert(s.push(x) + ops_pushed(ops.drop_first()) =~= s + ops_pushed(ops));
            },
            RingOp::Take => {
                lemma_fifo_history(s.drop_first(), ops.drop_first(), cap);
                let rest = ops_taken(s.drop_first(), ops.drop_first());
                assert forall|k: int|
                    0 <= k < 1 + rest.len() implies (seq![s.first()] + rest)[k] == (s
                    + ops_pushed(ops)).take(1 + rest.len() as int)[k] by {
                    if k > 0 {
                        assert(rest[k - 1] == (s.drop_first() + ops_pushed(ops.drop_first())).take(
                            rest.len() as int,
                        )[k - 1]);
                        assert((s.drop_first() + ops_pushed(ops.drop_first()))[k - 1] == (s
                            + ops_pushed(ops))[k]);
                    }
                }
            },
        }
    }
}

} // verus!
