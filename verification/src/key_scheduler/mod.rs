pub mod id_generator;

use vstd::prelude::*;

use crate::key_buffer::Event;
use id_generator::IdGenerator;

verus! {

/// Error returned by `schedule` when the pending table is full.
#[derive(Debug, Clone, Copy, PartialEq, Eq, Structural)]
pub struct CapacityExceeded;

/// How many tasks may be pending at once: one per single-byte id.
pub const CAPACITY: usize = 256;

/// How many entries of `s` hold a pending event.
pub open spec fn count_pending(s: Seq<Option<Event>>) -> nat
    decreases s.len(),
{
    if s.len() == 0 {
        0
    } else {
        count_pending(s.drop_last()) + if s.last() is Some {
            1nat
        } else {
            0nat
        }
    }
}

pub proof fn lemma_count_pending_le_len(s: Seq<Option<Event>>)
    ensures
        count_pending(s) <= s.len(),
    decreases s.len(),
{
    if s.len() > 0 {
        lemma_count_pending_le_len(s.drop_last());
    }
}

/// Updating one entry changes the count exactly by what leaves and what enters.
pub proof fn lemma_count_pending_update(s: Seq<Option<Event>>, i: int, v: Option<Event>)
    requires
        0 <= i < s.len(),
    ensures
        count_pending(s.update(i, v)) == count_pending(s) - (if s[i] is Some {
            1int
        } else {
            0int
        }) + (if v is Some {
            1int
        } else {
            0int
        }),
    decreases s.len(),
{
    let t = s.update(i, v);
    if i == s.len() - 1 {
        assert(t.drop_last() =~= s.drop_last());
    } else {
        assert(t.drop_last() =~= s.drop_last().update(i, v));
        lemma_count_pending_update(s.drop_last(), i, v);
    }
}

/// A full table has a pending event at every id.
pub proof fn lemma_count_pending_full(s: Seq<Option<Event>>, i: int)
    requires
        count_pending(s) == s.len(),
        0 <= i < s.len(),
    ensures
        s[i] is Some,
    decreases s.len(),
{
    lemma_count_pending_le_len(s.drop_last());
    if i < s.len() - 1 {
        lemma_count_pending_full(s.drop_last(), i);
    }
}

/// After any pending task fires, a full scheduler has room again:
/// removing one pending id from a full table leaves the count below
/// capacity, so the next `schedule` call is owed success.
pub proof fn lemma_fire_frees_capacity(slots: Seq<Option<Event>>, id: u8)
    requires
        slots.len() == CAPACITY,
        count_pending(slots) == CAPACITY,
    ensures
        count_pending(slots.update(id as int, None)) == (CAPACITY - 1) as nat,
{
    lemma_count_pending_full(slots, id as int);
    lemma_count_pending_update(slots, id as int, None);
}

/// What one admission decision does to the pending table: at capacity
/// nothing moves and no id is granted; otherwise the drawn id's slot is
/// filled (a colliding id overwrites the event stored under it) and the
/// id counter advances, wrapping.
pub open spec fn spec_schedule_one(slots: Seq<Option<Event>>, next: u8, e: Event) -> (Seq<
    Option<Event>,
>, u8, Option<u8>) {
    if count_pending(slots) >= CAPACITY {
        (slots, next, None::<u8>)
    } else {
        (slots.update(next as int, Some(e)), ((next + 1) % 256) as u8, Some(next))
    }
}

/// Folding `spec_schedule_one` over a whole expanded action, keeping the
/// delays beside the events that were admitted; a rejected event is
/// dropped and the rest of the batch still goes through.
pub open spec fn spec_schedule_all(
    slots: Seq<Option<Event>>,
    next: u8,
    events: Seq<(i64, Event)>,
) -> (Seq<Option<Event>>, u8, Seq<(u8, i64, Event)>)
    decreases events.len(),
{
    if events.len() == 0 {
        (slots, next, Seq::<(u8, i64, Event)>::empty())
    } else {
        let step = spec_schedule_one(slots, next, events[0].1);
        let rest = spec_schedule_all(step.0, step.1, events.drop_first());
        let armed = match step.2 {
            Some(id) => seq![(id, events[0].0, events[0].1)] + rest.2,
            None => rest.2,
        };
        (rest.0, rest.1, armed)
    }
}

/// Admits delayed events up to a fixed capacity of 256 concurrently
/// pending tasks. Each admitted event occupies one single-byte id until
/// its timer fires; the surrounding shell arms the real timer and calls
/// `fire` on expiry to collect the event to emit.
pub struct KeyScheduler {
    slots: Vec<Option<Event>>,
    count: usize,
    id_generator: IdGenerator,
}

impl KeyScheduler {
    /// The pending table: entry `i` holds the event that will be emitted
    /// when the task with id `i` fires, if one is pending there.
    pub closed spec fn pending(&self) -> Seq<Option<Event>> {
        self.slots@
    }

    pub open spec fn num_pending(&self) -> nat {
        count_pending(self.pending())
    }

    /// The id the next successful `schedule` call will draw.
    pub closed spec fn next_id(&self) -> u8 {
        self.id_generator.current
    }

    /// Internal bookkeeping: the stored count is the table's true count.
    pub closed spec fn inv(&self) -> bool {
        self.count == count_pending(self.slots@)
    }

    pub open spec fn wf(&self) -> bool {
        &&& self.pending().len() == CAPACITY
        &&& self.inv()
    }

    pub fn new() -> (s: KeyScheduler)
        ensures
            s.wf(),
            s.num_pending() == 0,
            s.next_id() == 0,
    {
        let mut slots: Vec<Option<Event>> = Vec::with_capacity(CAPACITY);
        let mut i: usize = 0;
        while i < CAPACITY
            invariant
                i <= CAPACITY,
                i == slots@.len(),
                count_pending(slots@) == 0,
            decreases CAPACITY - i,
        {
            proof {
                assert(slots@.push(None::<Event>).drop_last() =~= slots@);
            }
            slots.push(None);
            i = i + 1;
        }
        KeyScheduler { slots, count: 0, id_generator: IdGenerator::new() }
    }

    /// Admits one event. Fails, moving nothing, exactly when 256 tasks
    /// are already pending; otherwise stores the event under the drawn
    /// id and hands the id back so a timer for `delay_ms` can be armed.
    /// The id counter advances on every success regardless of which ids
    /// are vacant, so a drawn id can collide with one still pending; the
    /// collision overwrites the event stored under that id.
    pub fn schedule(&mut self, event: Event, delay_ms: i64) -> (r: Result<u8, CapacityExceeded>)
        requires
            old(self).wf(),
        ensures
            final (self).wf(),
            r is Err <==> old(self).num_pending() == CAPACITY,
            r is Err ==> *final (self) == *old(self),
            r is Ok ==> {
                let step = spec_schedule_one(old(self).pending(), old(self).next_id(), event);
                &&& r == Ok::<u8, CapacityExceeded>(old(self).next_id())
                &&& final (self).pending() == step.0
                &&& final (self).next_id() == step.1
            },
    {
        proof {
            lemma_count_pending_le_len(self.slots@);
        }
        if self.count >= CAPACITY {
            return Err(CapacityExceeded);
        }
        let id = match self.id_generator.next() {
            Some(id) => id,
            None => {
                return Err(CapacityExceeded);
            },
        };
        let idx = id as usize;
        let was_pending = self.slots[idx].is_some();
        self.slots.set(idx, Some(event));
        proof {
            lemma_count_pending_update(old(self).slots@, idx as int, Some(event));
        }
        if !was_pending {
            self.count = self.count + 1;
        }
        Ok(id)
    }

    /// The task with this id has fired: frees the id and hands back the
    /// event stored under it, to be emitted. Returns nothing if no task
    /// is pending under the id (its slot was overwritten by a colliding
    /// later task whose timer already fired).
    pub fn fire(&mut self, id: u8) -> (r: Option<Event>)
        requires
            old(self).wf(),
        ensures
            final (self).wf(),
            r == old(self).pending()[id as int],
            final (self).pending() == old(self).pending().update(id as int, None),
            final (self).next_id() == old(self).next_id(),
    {
        let idx = id as usize;
        let stored = self.slots[idx];
        self.slots.set(idx, None);
        proof {
            lemma_count_pending_update(old(self).slots@, idx as int, None);
        }
        if stored.is_some() {
            self.count = self.count - 1;
        }
        stored
    }

    /// Admits a whole expanded action, one event at a time, in order.
    /// A capacity failure drops that event but does not abort the batch.
    /// Returns the admitted tasks as (id, delay, event), in order.
    pub fn schedule_all(&mut self, events: &Vec<(i64, Event)>) -> (armed: Vec<(u8, i64, Event)>)
        requires
            old(self).wf(),
        ensures
            final (self).wf(),
            final (self).pending() == spec_schedule_all(
                old(self).pending(),
                old(self).next_id(),
                events@,
            ).0,
            final (self).next_id() == spec_schedule_all(
                old(self).pending(),
                old(self).next_id(),
                events@,
            ).1,
            armed@ == spec_schedule_all(old(self).pending(), old(self).next_id(), events@).2,
    {
        let ghost full = spec_schedule_all(old(self).pending(), old(self).next_id(), events@);
        proof {
            assert(events@.skip(0) =~= events@);
        }
        let mut armed: Vec<(u8, i64, Event)> = Vec::new();
        let n = events.len();
        let mut i: usize = 0;
        while i < n
            invariant
                self.wf(),
                n == events@.len(),
                0 <= i <= n,
                full == spec_schedule_all(old(self).pending(), old(self).next_id(), events@),
                spec_schedule_all(self.pending(), self.next_id(), events@.skip(i as int)).0
                    == full.0,
                spec_schedule_all(self.pending(), self.next_id(), events@.skip(i as int)).1
                    == full.1,
                armed@ + spec_schedule_all(self.pending(), self.next_id(), events@.skip(i as int)).2
                    == full.2,
            decreases n - i,
        {
            let (delay, event) = events[i];
            let ghost pre_slots = self.pending();
            let ghost pre_next = self.next_id();
            let ghost todo = events@.skip(i as int);
            proof {
                assert(todo[0] == events@[i as int]);
                assert(todo.drop_first() =~= events@.skip(i as int + 1));
            }
            let r = self.schedule(event, delay);
            proof {
                lemma_count_pending_le_len(pre_slots);
            }
            if let Ok(id) = r {
                armed.push((id, delay, event));
            }
            proof {
                let step = spec_schedule_one(pre_slots, pre_next, event);
                assert(self.pending() == step.0);
                assert(self.next_id() == step.1);
                assert(armed@ + spec_schedule_all(
                    self.pending(),
                    self.next_id(),
                    events@.skip(i as int + 1),
                ).2 =~= full.2);
            }
            i = i + 1;
        }
        armed
    }
}

} // verus!
