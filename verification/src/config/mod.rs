pub mod config_processor;
pub mod key_names;
pub mod parser;

use vstd::prelude::*;

pub use config_processor::{action_to_events, get_action};
pub use parser::Expressions;

use crate::key_buffer::{spec_event_hash, Action, Event};
use parser::{parse_expr, spec_parse_expr, Expr};
use vstd::utf8::encode_utf8;

verus! {

/// One configured combo as written: the condition that must be observed
/// in the buffer, and the action to perform in its place.
#[derive(Debug)]
pub struct KeyCombination {
    pub combination: Expressions,
    pub action: Expressions,
}

/// A combo together with the hashes of the events its condition
/// requires, each hash once.
#[derive(Debug)]
pub struct KeyCombinationHashed {
    pub combinations: KeyCombination,
    pub keys_hashes: Vec<u64>,
}

/// The loaded configuration the engine consults: the combos in
/// declaration order — order is load-bearing, the matcher gives an
/// earlier combo precedence — and the union of every combo's required
/// hashes, the quick test that decides which events are buffered at all.
#[derive(Debug)]
pub struct ParsedConfig {
    pub delay_ms: Option<u64>,
    pub key_combinations: Vec<KeyCombinationHashed>,
    pub combo_hashes: Vec<u64>,
}

/// The hashes a condition requires of the buffer: a bare key name
/// requires both its press and its release; an explicit direction
/// requires exactly that transition; a wait token requires nothing.
pub open spec fn spec_required_hashes(cond: Seq<Expr>) -> Set<u64>
    decreases cond.len(),
{
    if cond.len() == 0 {
        Set::<u64>::empty()
    } else {
        let rest = spec_required_hashes(cond.drop_last());
        match cond.last() {
            Expr::Key(k) => match k.action {
                None => rest.insert(
                    spec_event_hash(Event { key: k.key, action: Action::Press }),
                ).insert(spec_event_hash(Event { key: k.key, action: Action::Release })),
                Some(a) => rest.insert(spec_event_hash(Event { key: k.key, action: a })),
            },
            Expr::Wait(_) => rest,
        }
    }
}

/// The union of every combo's required hashes.
pub open spec fn spec_combined_hashes(combos: Seq<KeyCombinationHashed>) -> Set<u64>
    decreases combos.len(),
{
    if combos.len() == 0 {
        Set::<u64>::empty()
    } else {
        spec_combined_hashes(combos.drop_last()).union(combos.last().keys_hashes@.to_set())
    }
}

/// Each combo carries its condition's required hashes, each exactly once.
pub open spec fn spec_combos_wf(combos: Seq<KeyCombinationHashed>) -> bool {
    forall|i: int|
        0 <= i < combos.len() ==> {
            let c = #[trigger] combos[i];
            &&& c.keys_hashes@.no_duplicates()
            &&& c.keys_hashes@.to_set() == spec_required_hashes(c.combinations.combination@)
        }
}

impl ParsedConfig {
    /// The aggregate filter: the set of hashes that occur in some combo's
    /// condition. An event whose hash is outside it is part of no combo
    /// and bypasses the buffer.
    pub open spec fn all_hashes(&self) -> Set<u64> {
        self.combo_hashes@.to_set()
    }

    pub open spec fn wf(&self) -> bool {
        &&& spec_combos_wf(self.key_combinations@)
        &&& self.all_hashes() == spec_combined_hashes(self.key_combinations@)
    }

    /// Whether this event is part of any combo's condition.
    pub fn has_key(&self, event: &Event) -> (r: bool)
        ensures
            r == self.all_hashes().contains(spec_event_hash(*event)),
    {
        let hash = event.get_u64_hash();
        contains_u64(&self.combo_hashes, hash)
    }
}

pub(crate) fn contains_u64(v: &Vec<u64>, x: u64) -> (r: bool)
    ensures
        r == v@.contains(x),
{
    let n = v.len();
    let mut i: usize = 0;
    while i < n
        invariant
            0 <= i <= n,
            n == v@.len(),
            forall|k: int| 0 <= k < i ==> v@[k] != x,
        decreases n - i,
    {
        if v[i] == x {
            return true;
        }
        i = i + 1;
    }
    false
}

/// Appends a hash unless it is already present, keeping the list a
/// duplicate-free representation of a growing set.
fn push_unique(v: &mut Vec<u64>, h: u64)
    requires
        old(v)@.no_duplicates(),
    ensures
        final (v)@.no_duplicates(),
        final (v)@.to_set() == old(v)@.to_set().insert(h),
{
    if !contains_u64(v, h) {
        let ghost pre = v@;
        v.push(h);
        proof {
            pre.lemma_push_to_set_commute(h);
            assert(v@ == pre.push(h));
        }
    } else {
        proof {
            assert(v@.to_set() =~= old(v)@.to_set().insert(h));
        }
    }
}

/// Builds the configuration from the combo entries as declared, in
/// order: each entry is a condition expression and an action
/// expression, and an optional global debounce delay comes with them.
/// Fails exactly when some entry's condition or action cannot be
/// parsed; the engine never sees a partially valid configuration.
pub fn load_config(delay_ms: Option<u64>, entries: &Vec<(String, String)>) -> (r: Result<
    ParsedConfig,
    &'static str,
>)
    ensures
        match r {
            Ok(c) => {
                &&& c.wf()
                &&& c.delay_ms == delay_ms
                &&& c.key_combinations@.len() == entries@.len()
                &&& forall|i: int|
                    0 <= i < entries@.len() ==> {
                        let e = #[trigger] entries@[i];
                        let ci = c.key_combinations@[i];
                        &&& spec_parse_expr(encode_utf8(e.0@)) == Some(
                            ci.combinations.combination@,
                        )
                        &&& spec_parse_expr(encode_utf8(e.1@)) == Some(ci.combinations.action@)
                    }
            },
            Err(_) => exists|i: int|
                0 <= i < entries@.len() && {
                    let e = #[trigger] entries@[i];
                    spec_parse_expr(encode_utf8(e.0@)) is None || spec_parse_expr(
                        encode_utf8(e.1@),
                    ) is None
                },
        },
{
    let n = entries.len();
    let mut combos: Vec<KeyCombinationHashed> = Vec::new();
    let mut total_hashes: Vec<u64> = Vec::new();
    let mut i: usize = 0;
    while i < n
        invariant
            0 <= i <= n,
            n == entries@.len(),
            combos@.len() == i,
            spec_combos_wf(combos@),
            total_hashes@.no_duplicates(),
            total_hashes@.to_set() == spec_combined_hashes(combos@),
            forall|k: int|
                0 <= k < i ==> {
                    let e = #[trigger] entries@[k];
                    let ck = combos@[k];
                    &&& spec_parse_expr(encode_utf8(e.0@)) == Some(ck.combinations.combination@)
                    &&& spec_parse_expr(encode_utf8(e.1@)) == Some(ck.combinations.action@)
                },
        decreases n - i,
    {
        let entry = &entries[i];
        let parsed_condition = match parse_expr(entry.0.as_str()) {
            Ok(v) => v,
            Err(m) => {
                return Err(m);
            },
        };
        let parsed_action = match parse_expr(entry.1.as_str()) {
            Ok(v) => v,
            Err(m) => {
                return Err(m);
            },
        };
        let nc = parsed_condition.len();
        let mut key_events: Vec<u64> = Vec::new();
        let mut j: usize = 0;
        proof {
            assert(parsed_condition@.take(0) =~= Seq::<Expr>::empty());
        }
        while j < nc
            invariant
                0 <= j <= nc,
                nc == parsed_condition@.len(),
                key_events@.no_duplicates(),
                key_events@.to_set() == spec_required_hashes(parsed_condition@.take(j as int)),
            decreases nc - j,
        {
            proof {
                assert(parsed_condition@.take(j as int + 1).drop_last() =~= parsed_condition@.take(
                    j as int,
                ));
            }
            match parsed_condition[j] {
                Expr::Key(k) => {
                    match k.action {
                        None => {
                            let h1 = Event { key: k.key, action: Action::Press }.get_u64_hash();
                            push_unique(&mut key_events, h1);
                            let h2 = Event { key: k.key, action: Action::Release }.get_u64_hash();
                            push_unique(&mut key_events, h2);
                        },
                        Some(action) => {
                            let h = Event { key: k.key, action }.get_u64_hash();
                            push_unique(&mut key_events, h);
                        },
                    }
                },
                Expr::Wait(_) => {},
            }
            j = j + 1;
        }
        proof {
            assert(parsed_condition@.take(nc as int) =~= parsed_condition@);
        }
        let nk = key_events.len();
        let mut j2: usize = 0;
        while j2 < nk
            invariant
                0 <= j2 <= nk,
                nk == key_events@.len(),
                total_hashes@.no_duplicates(),
                total_hashes@.to_set() == spec_combined_hashes(combos@).union(
                    key_events@.take(j2 as int).to_set(),
                ),
            decreases nk - j2,
        {
            proof {
                assert(key_events@.take(j2 as int + 1).drop_last() =~= key_events@.take(
                    j2 as int,
                ));
                assert(key_events@.take(j2 as int + 1) =~= key_events@.take(j2 as int).push(
                    key_events@[j2 as int],
                ));
                key_events@.take(j2 as int).lemma_push_to_set_commute(key_events@[j2 as int]);
            }
            push_unique(&mut total_hashes, key_events[j2]);
            proof {
                assert(total_hashes@.to_set() =~= spec_combined_hashes(combos@).union(
                    key_events@.take(j2 as int + 1).to_set(),
                ));
            }
            j2 = j2 + 1;
        }
        proof {
            assert(key_events@.take(nk as int) =~= key_events@);
        }
        let combo = KeyCombinationHashed {
            combinations: KeyCombination { combination: parsed_condition, action: parsed_action },
            keys_hashes: key_events,
        };
        let ghost combos_pre = combos@;
        combos.push(combo);
        proof {
            assert(combos@.drop_last() =~= combos_pre);
            assert(spec_combined_hashes(combos@) =~= spec_combined_hashes(combos_pre).union(
                combos@.last().keys_hashes@.to_set(),
            ));
        }
        i = i + 1;
    }
    Ok(ParsedConfig { delay_ms, key_combinations: combos, combo_hashes: total_hashes })
}

} // verus!
