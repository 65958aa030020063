//! The stream-id table of one connection: which ids are in flight, and the
//! deadline of each pending request.
use vstd::prelude::*;

verus! {

/// Largest number of stream ids one connection may use (non-negative `i16`).
pub const MAX_STREAMS: usize = 32768;

/// Slot `i` holds `Some(deadline)` while stream id `i` is in flight.
pub struct StreamTable {
    slots: Vec<Option<u64>>,
}

/// Whether a pending slot's deadline has been reached at `now`.
pub open spec fn due(slot: Option<u64>, now: int) -> bool {
    match slot {
        Some(d) => d <= now,
        None => false,
    }
}

/// The ids below `n` whose slots are due at `now`, in increasing order.
pub open spec fn due_ids(s: Seq<Option<u64>>, now: int, n: int) -> Seq<i16>
    decreases n,
{
    if n <= 0 {
        Seq::empty()
    } else if due(s[n - 1], now) {
        due_ids(s, now, n - 1).push((n - 1) as i16)
    } else {
        due_ids(s, now, n - 1)
    }
}

/// All ids that are in flight, in increasing order.
pub open spec fn busy_ids(s: Seq<Option<u64>>) -> Seq<i16> {
    due_ids(s, u64::MAX as int, s.len() as int)
}

/// The lowest free id below `n`, if any.
pub open spec fn first_free(s: Seq<Option<u64>>, n: int) -> Option<int>
    decreases n,
{
    if n <= 0 {
        None
    } else {
        match first_free(s, n - 1) {
            Some(i) => Some(i),
            None => if s[n - 1] is None { Some(n - 1) } else { None },
        }
    }
}

/// The table after the slots due at `now` are cleared.
pub open spec fn after_reap(s: Seq<Option<u64>>, now: int) -> Seq<Option<u64>> {
    Seq::new(s.len(), |i: int| if due(s[i], now) { None } else { s[i] })
}

pub(crate) proof fn lemma_first_free(s: Seq<Option<u64>>, n: int)
    requires
        0 <= n <= s.len(),
    ensures
        first_free(s, n) is None <==> forall|j: int| 0 <= j < n ==> s[j] is Some,
        first_free(s, n) matches Some(i) ==> 0 <= i < n && s[i] is None && forall|j: int|
            0 <= j < i ==> s[j] is Some,
    decreases n,
{
    if n > 0 {
        lemma_first_free(s, n - 1);
    }
}

impl View for StreamTable {
    type V = Seq<Option<u64>>;

    closed spec fn view(&self) -> Seq<Option<u64>> {
        self.slots@
    }
}

impl StreamTable {
    pub open spec fn wf(&self) -> bool {
        0 < self@.len() <= MAX_STREAMS
    }

    /// A table of `capacity` ids, none in flight.
    pub fn new(capacity: usize) -> (r: StreamTable)
        requires
            0 < capacity <= MAX_STREAMS,
        ensures
            r.wf(),
            r@ == Seq::new(capacity as nat, |i: int| None::<u64>),
    {
        let mut slots: Vec<Option<u64>> = Vec::new();
        let mut i: usize = 0;
        while i < capacity
            invariant
                i <= capacity,
                slots@ == Seq::new(i as nat, |k: int| None::<u64>),
            decreases capacity - i,
        {
            slots.push(None);
            i = i + 1;
            assert(slots@ =~= Seq::new(i as nat, |k: int| None::<u64>));
        }
        StreamTable { slots }
    }

    pub fn capacity(&self) -> (r: usize)
        ensures
            r == self@.len(),
    {
        self.slots.len()
    }

    /// Number of ids in flight.
    pub fn in_flight(&self) -> (r: usize)
        requires
            self.wf(),
        ensures
            r == busy_ids(self@).len(),
    {
        let mut count: usize = 0;
        let mut i: usize = 0;
        while i < self.slots.len()
            invariant
                i <= self@.len() <= MAX_STREAMS,
                count == due_ids(self@, u64::MAX as int, i as int).len(),
                count <= i,
            decreases self@.len() - i,
        {
            if self.slots[i].is_some() {
                count = count + 1;
            }
            i = i + 1;
        }
        count
    }

    /// Whether no id is in flight.
    pub fn is_idle(&self) -> (r: bool)
        ensures
            r == forall|i: int| 0 <= i < self@.len() ==> self@[i] is None,
    {
        let mut i: usize = 0;
        while i < self.slots.len()
            invariant
                i <= self@.len(),
                forall|k: int| 0 <= k < i ==> self@[k] is None,
            decreases self@.len() - i,
        {
            if self.slots[i].is_some() {
                return false;
            }
            i = i + 1;
        }
        true
    }

    /// Whether stream id `id` is in flight.
    pub fn is_busy(&self, id: i16) -> (r: bool)
        ensures
            r == (0 <= id < self@.len() && self@[id as int] is Some),
    {
        if id < 0 || id as usize >= self.slots.len() {
            false
        } else {
            self.slots[id as usize].is_some()
        }
    }

    /// Reserves the lowest free id for a request due at `deadline`; `None`
    /// when every id is in flight.
    pub fn allocate(&mut self, deadline: u64) -> (r: Option<i16>)
        requires
            old(self).wf(),
        ensures
            final(self).wf(),
            r is None <==> first_free(old(self)@, old(self)@.len() as int) is None,
            r is None ==> final(self)@ == old(self)@,
            r matches Some(id) ==> first_free(old(self)@, old(self)@.len() as int) == Some(
                id as int,
            ) && final(self)@ == old(self)@.update(id as int, Some(deadline)),
    {
        let mut i: usize = 0;
        while i < self.slots.len()
            invariant
                self@ == old(self)@,
                old(self).wf(),
                i <= self@.len(),
                first_free(self@, i as int) is None,
            decreases self@.len() - i,
        {
            if self.slots[i].is_none() {
                proof {
                    lemma_first_free(self@, i as int);
                    lemma_first_free(self@, self@.len() as int);
                }
                self.slots.set(i, Some(deadline));
                return Some(i as i16);
            }
            i = i + 1;
        }
        None
    }

    /// Retires stream id `id` when its response arrives. Returns `false`, and
    /// changes nothing, when no request is in flight under that id.
    pub fn retire(&mut self, id: i16) -> (r: bool)
        requires
            old(self).wf(),
        ensures
            final(self).wf(),
            r == (0 <= id < old(self)@.len() && old(self)@[id as int] is Some),
            r ==> final(self)@ == old(self)@.update(id as int, None),
            !r ==> final(self)@ == old(self)@,
    {
        if id < 0 || id as usize >= self.slots.len() {
            return false;
        }
        if self.slots[id as usize].is_none() {
            return false;
        }
        self.slots.set(id as usize, None);
        true
    }

    /// Frees every id whose deadline is at or before `now` and returns them,
    /// in increasing order: each of those requests has timed out.
    pub fn reap(&mut self, now: u64) -> (r: Vec<i16>)
        requires
            old(self).wf(),
        ensures
            final(self).wf(),
            r@ == due_ids(old(self)@, now as int, old(self)@.len() as int),
            final(self)@ == after_reap(old(self)@, now as int),
    {
        let ghost s0 = self@;
        let mut out: Vec<i16> = Vec::new();
        let mut i: usize = 0;
        while i < self.slots.len()
            invariant
                s0 == old(self)@,
                old(self).wf(),
                self@.len() == s0.len(),
                i <= s0.len(),
                out@ == due_ids(s0, now as int, i as int),
                forall|k: int| 0 <= k < i ==> self@[k] == after_reap(s0, now as int)[k],
                forall|k: int| i <= k < s0.len() ==> self@[k] == s0[k],
            decreases s0.len() - i,
        {
            match self.slots[i] {
                Some(d) => {
                    if d <= now {
                        self.slots.set(i, None);
                        out.push(i as i16);
                    }
                },
                None => {},
            }
            i = i + 1;
        }
        assert(self@ =~= after_reap(s0, now as int));
        out
    }

    /// Frees every id and returns those that were in flight, in increasing
    /// order: the transport is gone and each of those requests is lost.
    pub fn fail_all(&mut self) -> (r: Vec<i16>)
        requires
            old(self).wf(),
        ensures
            final(self).wf(),
            r@ == busy_ids(old(self)@),
            final(self)@ == Seq::new(old(self)@.len(), |i: int| None::<u64>),
    {
        let r = self.reap(u64::MAX);
        assert(self@ =~= Seq::new(old(self)@.len(), |i: int| None::<u64>));
        r
    }
}

/// While a stream id is in flight it is never handed out again: the next
/// allocation picks another id, and only retiring or reaping that id frees it.
pub proof fn lemma_busy_id_not_reassigned(s: Seq<Option<u64>>, id: int, other: int, now: int)
    requires
        0 <= id < s.len(),
        s[id] is Some,
        0 <= other < s.len(),
        other != id,
        !due(s[id], now),
    ensures
        first_free(s, s.len() as int) != Some(id),
        s.update(other, None)[id] is Some,
        after_reap(s, now)[id] is Some,
{
    lemma_first_free(s, s.len() as int);
}

/// A request whose deadline has passed is freed by the reaper and its id is
/// the lowest free one when every lower id is still in flight.
pub proof fn lemma_timed_out_id_reusable(s: Seq<Option<u64>>, id: int, now: int)
    requires
        0 <= id < s.len(),
        due(s[id], now),
        forall|j: int| 0 <= j < id ==> #[trigger] s[j] is Some && !due(s[j], now),
    ensures
        after_reap(s, now)[id] is None,
        first_free(after_reap(s, now), s.len() as int) == Some(id),
{
    let t = after_reap(s, now);
    lemma_first_free(t, s.len() as int);
    assert(forall|j: int| 0 <= j < id ==> t[j] is Some);
}

} // verus!
