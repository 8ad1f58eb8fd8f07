use vstd::prelude::*;

use crate::config::config_processor::{
    action_to_events, get_action, spec_expand, spec_first_match, spec_hashes_of,
};
use crate::config::ParsedConfig;
use crate::keys::KeyCode;

verus! {

/// The direction of a key transition.
#[derive(Debug, Clone, Copy, PartialEq, Eq, Hash, Structural)]
pub enum Action {
    Press,
    Release,
}

/// One raw key transition: a key together with the direction it moved.
#[derive(Debug, Clone, Copy, PartialEq, Eq, Hash, Structural)]
pub struct Event {
    pub key: KeyCode,
    pub action: Action,
}

/// The stable 64-bit hash of an event: a pure function of its fields,
/// distinct for distinct events.
pub open spec fn spec_event_hash(e: Event) -> u64 {
    (e.key.spec_code() * 2 + if e.action is Press {
        0int
    } else {
        1int
    }) as u64
}

impl Event {
    pub fn get_u64_hash(&self) -> (h: u64)
        ensures
            h == spec_event_hash(*self),
    {
        let code: u16 = self.key.code();
        let bit: u64 = match self.action {
            Action::Press => 0,
            Action::Release => 1,
        };
        code as u64 * 2 + bit
    }
}

/// The hash is faithful to the event: equal events hash equal (the
/// hash is a function), and distinct events hash distinct, so the
/// matcher's hash comparisons stand for event comparisons.
pub proof fn lemma_event_hash_injective(a: Event, b: Event)
    ensures
        spec_event_hash(a) == spec_event_hash(b) ==> a == b,
{
}

/// The debounce delay used when the configuration sets none.
pub const DEFAULT_DELAY_MS: u64 = 3;

/// What one push asks the surrounding shell to do. The decision is made
/// here; performing it (forwarding, arming a passthrough timer,
/// cancelling timers and scheduling the macro) is the shell's part.
#[derive(Debug, PartialEq, Eq)]
pub enum PushOutcome {
    /// The event is part of no combo: forward it at once, unbuffered.
    Passthrough(Event),
    /// The event was appended to the buffer and no combo is satisfied
    /// yet: arm a passthrough timer for it.
    Buffered,
    /// A combo was satisfied. The buffer was cleared — every buffered
    /// event's passthrough timer must be cancelled, none of them is
    /// forwarded — and these timed events replace them.
    Matched(Vec<(i64, Event)>),
}

/// The debounce buffer: the recently pushed events that may still
/// become part of a combo, oldest first, together with the loaded
/// configuration. Holds only events whose hash is in some combo's
/// condition; everything else bypasses it.
pub struct KeyBuffer {
    buffer: Vec<Event>,
    config: ParsedConfig,
}

impl KeyBuffer {
    /// The buffered events, oldest first.
    pub closed spec fn contents(&self) -> Seq<Event> {
        self.buffer@
    }

    pub closed spec fn config(&self) -> ParsedConfig {
        self.config
    }

    pub open spec fn wf(&self) -> bool {
        &&& self.config().wf()
        &&& forall|i: int|
            0 <= i < self.contents().len() ==> self.config().all_hashes().contains(
                spec_event_hash(#[trigger] self.contents()[i]),
            )
    }

    pub fn new(config: ParsedConfig) -> (b: KeyBuffer)
        requires
            config.wf(),
        ensures
            b.wf(),
            b.contents() == Seq::<Event>::empty(),
            b.config() == config,
    {
        let b = KeyBuffer { buffer: Vec::new(), config };
        proof {
            assert(b.contents() =~= Seq::<Event>::empty());
        }
        b
    }

    /// The debounce delay: the configured one, or the default.
    pub fn delay_ms(&self) -> (d: u64)
        ensures
            d == match self.config().delay_ms {
                Some(ms) => ms,
                None => DEFAULT_DELAY_MS,
            },
    {
        match self.config.delay_ms {
            Some(ms) => ms,
            None => DEFAULT_DELAY_MS,
        }
    }

    /// Takes one raw key transition. An event outside every combo
    /// passes straight through. Otherwise it is appended and the combo
    /// table is consulted at once: the first satisfied combo, in
    /// declaration order, consumes the whole buffer — the extra events
    /// too — and comes back expanded into its timed macro; with no
    /// satisfied combo the event stays buffered.
    pub fn push(&mut self, key: KeyCode, action: Action) -> (r: PushOutcome)
        requires
            old(self).wf(),
        ensures
            final (self).wf(),
            final (self).config() == old(self).config(),
            ({
                let e = Event { key, action };
                let cfg = old(self).config();
                let b2 = old(self).contents().push(e);
                if !cfg.all_hashes().contains(spec_event_hash(e)) {
                    &&& r == PushOutcome::Passthrough(e)
                    &&& final (self).contents() == old(self).contents()
                } else {
                    match spec_first_match(cfg.key_combinations@, spec_hashes_of(b2)) {
                        Some(m) => {
                            &&& r matches PushOutcome::Matched(ev) && ev@ == spec_expand(
                                cfg.key_combinations@[m].combinations.action@,
                                0,
                            )
                            &&& final (self).contents() == Seq::<Event>::empty()
                        },
                        None => {
                            &&& r == PushOutcome::Buffered
                            &&& final (self).contents() == b2
                        },
                    }
                }
            }),
    {
        let event = Event { key, action };
        if !self.config.has_key(&event) {
            return PushOutcome::Passthrough(event);
        }
        self.buffer.push(event);
        let matched = match get_action(&self.buffer, &self.config.key_combinations) {
            Some(action_exprs) => Some(action_to_events(action_exprs)),
            None => None,
        };
        match matched {
            Some(events) => {
                self.buffer.clear();
                proof {
                    assert(self.contents() =~= Seq::<Event>::empty());
                }
                PushOutcome::Matched(events)
            },
            None => PushOutcome::Buffered,
        }
    }

    /// A passthrough timer went off: hands back the oldest buffered
    /// event — deliberately the front of the queue, not necessarily the
    /// event whose own timer fired — to be forwarded unchanged; nothing
    /// when the buffer is already empty.
    pub fn expire(&mut self) -> (r: Option<Event>)
        requires
            old(self).wf(),
        ensures
            final (self).wf(),
            final (self).config() == old(self).config(),
            match r {
                Some(e) => {
                    &&& old(self).contents().len() > 0
                    &&& e == old(self).contents()[0]
                    &&& final (self).contents() == old(self).contents().drop_first()
                },
                None => {
                    &&& old(self).contents().len() == 0
                    &&& final (self).contents() == old(self).contents()
                },
            },
    {
        if self.buffer.len() == 0 {
            None
        } else {
            let e = self.buffer.remove(0);
            proof {
                assert(self.contents() =~= old(self).contents().drop_first());
            }
            Some(e)
        }
    }

    /// Empties the buffer without forwarding anything; every buffered
    /// event's passthrough timer must be cancelled by the caller.
    pub fn clear(&mut self)
        requires
            old(self).wf(),
        ensures
            final (self).wf(),
            final (self).config() == old(self).config(),
            final (self).contents() == Seq::<Event>::empty(),
    {
        self.buffer.clear();
        proof {
            assert(self.contents() =~= Seq::<Event>::empty());
        }
    }
}

} // verus!
