use vstd::prelude::*;

use crate::config::{contains_u64, KeyCombinationHashed};
use crate::config::parser::{Expr, Expressions, KeyExpr, WaitExpr};
use crate::key_buffer::{spec_event_hash, Action, Event};
use crate::keys::KeyCode;

verus! {

/// The buffer's hash list: each buffered event's hash, in buffer order,
/// duplicates kept.
pub open spec fn spec_hashes_of(events: Seq<Event>) -> Seq<u64> {
    events.map_values(|e: Event| spec_event_hash(e))
}

/// Because the hash is injective, the buffer's hash list holds an
/// event's hash exactly when the buffer holds the event: comparing
/// hashes is comparing events.
pub proof fn lemma_hashes_faithful(events: Seq<Event>, e: Event)
    ensures
        spec_hashes_of(events).contains(spec_event_hash(e)) <==> events.contains(e),
{
    if spec_hashes_of(events).contains(spec_event_hash(e)) {
        let i = choose|i: int|
            0 <= i < spec_hashes_of(events).len() && spec_hashes_of(events)[i] == spec_event_hash(
                e,
            );
        crate::key_buffer::lemma_event_hash_injective(events[i], e);
        assert(events.contains(e));
    }
    if events.contains(e) {
        let i = choose|i: int| 0 <= i < events.len() && events[i] == e;
        assert(spec_hashes_of(events)[i] == spec_event_hash(e));
    }
}

/// Whether a buffer satisfies a combo: it holds at least as many events
/// as the combo requires, and every required hash occurs in it at least
/// once. A subset test, not set equality: extra unrelated events do not
/// prevent the match.
pub open spec fn spec_combo_matches(c: KeyCombinationHashed, hashes: Seq<u64>) -> bool {
    &&& hashes.len() >= c.keys_hashes@.len()
    &&& forall|j: int|
        0 <= j < c.keys_hashes@.len() ==> hashes.contains(#[trigger] c.keys_hashes@[j])
}

/// The index of the first combo, in declaration order, that the buffer
/// satisfies. Declaration order decides precedence: an earlier combo
/// wins even when a later one is also satisfied.
pub open spec fn spec_first_match(combos: Seq<KeyCombinationHashed>, hashes: Seq<u64>) -> Option<
    int,
>
    decreases combos.len(),
{
    if combos.len() == 0 {
        None
    } else if spec_combo_matches(combos[0], hashes) {
        Some(0int)
    } else {
        match spec_first_match(combos.drop_first(), hashes) {
            Some(i) => Some(i + 1),
            None => None,
        }
    }
}

/// `spec_first_match` returns exactly the first satisfied index: if
/// nothing below `i` is satisfied, the result is `i` when `i` is
/// satisfied and nothing when the end was reached.
pub proof fn lemma_first_match_at(combos: Seq<KeyCombinationHashed>, hashes: Seq<u64>, i: int)
    requires
        0 <= i <= combos.len(),
        forall|k: int| 0 <= k < i ==> !spec_combo_matches(#[trigger] combos[k], hashes),
        i < combos.len() ==> spec_combo_matches(combos[i], hashes),
    ensures
        spec_first_match(combos, hashes) == if i == combos.len() {
            None::<int>
        } else {
            Some(i)
        },
    decreases combos.len(),
{
    if combos.len() > 0 {
        if i > 0 {
            lemma_first_match_at(combos.drop_first(), hashes, i - 1);
        }
    }
}

/// Matching selects the earliest satisfied combo: whenever the combo at
/// `i` is satisfied — the buffer is long enough and its hash multiset
/// contains every hash the combo requires — matching succeeds, with a
/// combo no later than `i` that is itself satisfied.
pub proof fn lemma_match_selects_earliest(
    combos: Seq<KeyCombinationHashed>,
    hashes: Seq<u64>,
    i: int,
)
    requires
        0 <= i < combos.len(),
        hashes.len() >= combos[i].keys_hashes@.len(),
        forall|j: int|
            0 <= j < combos[i].keys_hashes@.len() ==> hashes.to_multiset().count(
                #[trigger] combos[i].keys_hashes@[j],
            ) > 0,
    ensures
        exists|m: int|
            {
                &&& spec_first_match(combos, hashes) == Some(m)
                &&& 0 <= m <= i
                &&& spec_combo_matches(#[trigger] combos[m], hashes)
            },
    decreases combos.len(),
{
    broadcast use vstd::seq_lib::to_multiset_contains;

    assert(spec_combo_matches(combos[i], hashes));
    if spec_combo_matches(combos[0], hashes) {
        assert(spec_first_match(combos, hashes) == Some(0int));
    } else {
        lemma_match_selects_earliest(combos.drop_first(), hashes, i - 1);
        let m0 = choose|m0: int|
            {
                &&& spec_first_match(combos.drop_first(), hashes) == Some(m0)
                &&& 0 <= m0 <= i - 1
                &&& spec_combo_matches(#[trigger] combos.drop_first()[m0], hashes)
            };
        assert(spec_first_match(combos, hashes) == Some(m0 + 1));
        assert(combos[m0 + 1] == combos.drop_first()[m0]);
    }
}

/// A buffer holding fewer events than a combo's (duplicate-free)
/// required set cannot contain every required hash: some required hash
/// is missing, so the matcher's size test rejects nothing that the
/// subset test would have accepted.
pub proof fn lemma_undersized_buffer_lacks_hashes(keys: Seq<u64>, hashes: Seq<u64>)
    requires
        keys.no_duplicates(),
        hashes.len() < keys.len(),
    ensures
        exists|j: int| 0 <= j < keys.len() && !hashes.contains(#[trigger] keys[j]),
{
    if forall|j: int| 0 <= j < keys.len() ==> hashes.contains(#[trigger] keys[j]) {
        assert(keys.to_set().subset_of(hashes.to_set()));
        keys.unique_seq_to_set();
        hashes.lemma_cardinality_of_set();
        broadcast use vstd::seq_lib::seq_to_set_is_finite;

        vstd::set_lib::lemma_len_subset(keys.to_set(), hashes.to_set());
        assert(false);
    }
}

/// A buffer with fewer events than a combo requires never satisfies it.
pub proof fn lemma_undersized_no_match(c: KeyCombinationHashed, hashes: Seq<u64>)
    requires
        hashes.len() < c.keys_hashes@.len(),
    ensures
        !spec_combo_matches(c, hashes),
{
}

/// When the buffer is smaller than what every combo requires, matching
/// finds nothing.
pub proof fn lemma_all_undersized_no_match(combos: Seq<KeyCombinationHashed>, hashes: Seq<u64>)
    requires
        forall|i: int|
            0 <= i < combos.len() ==> hashes.len() < (#[trigger] combos[i]).keys_hashes@.len(),
    ensures
        spec_first_match(combos, hashes) is None,
    decreases combos.len(),
{
    if combos.len() > 0 {
        lemma_all_undersized_no_match(combos.drop_first(), hashes);
    }
}

fn combo_matches(c: &KeyCombinationHashed, hashes: &Vec<u64>) -> (r: bool)
    ensures
        r == spec_combo_matches(*c, hashes@),
{
    let nk = c.keys_hashes.len();
    if hashes.len() < nk {
        return false;
    }
    let mut j: usize = 0;
    while j < nk
        invariant
            0 <= j <= nk,
            nk == c.keys_hashes@.len(),
            hashes@.len() >= nk,
            forall|k: int| 0 <= k < j ==> hashes@.contains(#[trigger] c.keys_hashes@[k]),
        decreases nk - j,
    {
        if !contains_u64(hashes, c.keys_hashes[j]) {
            return false;
        }
        j = j + 1;
    }
    true
}

/// Decides whether the buffered events satisfy any configured combo,
/// and hands back the first satisfied combo's action, by declaration
/// order; nothing when no combo is satisfied (an undersized or empty
/// buffer is simply no match, never an error). The buffer itself is
/// left untouched either way.
pub fn get_action<'a>(deq: &Vec<Event>, combinations: &'a Vec<KeyCombinationHashed>) -> (r: Option<
    &'a Expressions,
>)
    ensures
        match r {
            Some(a) => exists|m: int|
                {
                    &&& spec_first_match(combinations@, spec_hashes_of(deq@)) == Some(m)
                    &&& 0 <= m < combinations@.len()
                    &&& *a == (#[trigger] combinations@[m]).combinations.action
                },
            None => spec_first_match(combinations@, spec_hashes_of(deq@)) is None,
        },
{
    let nd = deq.len();
    let mut key_hashes: Vec<u64> = Vec::with_capacity(nd);
    let mut i: usize = 0;
    while i < nd
        invariant
            0 <= i <= nd,
            nd == deq@.len(),
            key_hashes@ =~= spec_hashes_of(deq@.take(i as int)),
        decreases nd - i,
    {
        let h = deq[i].get_u64_hash();
        key_hashes.push(h);
        proof {
            assert(deq@.take(i as int + 1) =~= deq@.take(i as int).push(deq@[i as int]));
        }
        i = i + 1;
    }
    proof {
        assert(deq@.take(nd as int) =~= deq@);
        assert(key_hashes@ == spec_hashes_of(deq@));
    }
    let nc = combinations.len();
    let mut ci: usize = 0;
    while ci < nc
        invariant
            0 <= ci <= nc,
            nc == combinations@.len(),
            key_hashes@ == spec_hashes_of(deq@),
            forall|k: int|
                0 <= k < ci ==> !spec_combo_matches(
                    #[trigger] combinations@[k],
                    spec_hashes_of(deq@),
                ),
        decreases nc - ci,
    {
        let c = &combinations[ci];
        if combo_matches(c, &key_hashes) {
            proof {
                lemma_first_match_at(combinations@, spec_hashes_of(deq@), ci as int);
            }
            return Some(&c.combinations.action);
        }
        ci = ci + 1;
    }
    proof {
        lemma_first_match_at(combinations@, spec_hashes_of(deq@), nc as int);
    }
    None
}

/// Where the running delay lands after a `wait` of `ms` milliseconds:
/// it advances by `ms`, capped at the largest representable delay.
pub open spec fn spec_advance(cursor: int, ms: u64) -> int {
    if cursor + ms > i64::MAX {
        i64::MAX as int
    } else {
        cursor + ms
    }
}

/// What an action expands to, with the running delay starting at
/// `cursor`: a wait moves the delay and emits nothing; an explicit
/// transition emits one event at the current delay; a bare key emits
/// its press and then its release, both at the same current delay.
pub open spec fn spec_expand(a: Seq<Expr>, cursor: int) -> Seq<(i64, Event)>
    decreases a.len(),
{
    if a.len() == 0 {
        Seq::<(i64, Event)>::empty()
    } else {
        let rest = a.drop_first();
        match a[0] {
            Expr::Wait(w) => spec_expand(rest, spec_advance(cursor, w.milliseconds)),
            Expr::Key(k) => match k.action {
                Some(act) => seq![(cursor as i64, Event { key: k.key, action: act })]
                    + spec_expand(rest, cursor),
                None => seq![
                    (cursor as i64, Event { key: k.key, action: Action::Press }),
                    (cursor as i64, Event { key: k.key, action: Action::Release }),
                ] + spec_expand(rest, cursor),
            },
        }
    }
}

/// How many timed events an action expands to: none for a wait, one for
/// an explicit transition, two for a tap.
pub open spec fn spec_expanded_len(a: Seq<Expr>) -> int
    decreases a.len(),
{
    if a.len() == 0 {
        0
    } else {
        (match a[0] {
            Expr::Wait(_) => 0int,
            Expr::Key(k) => if k.action is Some {
                1int
            } else {
                2int
            },
        }) + spec_expanded_len(a.drop_first())
    }
}

/// The expansion's length counts key tokens only: waits contribute no
/// entry at all, an explicit transition exactly one, a tap exactly two.
pub proof fn lemma_expand_len(a: Seq<Expr>, cursor: int)
    ensures
        spec_expand(a, cursor).len() == spec_expanded_len(a),
    decreases a.len(),
{
    if a.len() > 0 {
        match a[0] {
            Expr::Wait(w) => {
                lemma_expand_len(a.drop_first(), spec_advance(cursor, w.milliseconds));
            },
            Expr::Key(_) => {
                lemma_expand_len(a.drop_first(), cursor);
            },
        }
    }
}

/// A bare key token expands to exactly two entries that share one
/// delay, the press first and the release second; what follows the
/// token is expanded at that same delay.
pub proof fn lemma_expand_tap(k: KeyCode, rest: Seq<Expr>, cursor: int)
    ensures
        spec_expand(seq![Expr::Key(KeyExpr { key: k, action: None })] + rest, cursor) == seq![
            (cursor as i64, Event { key: k, action: Action::Press }),
            (cursor as i64, Event { key: k, action: Action::Release }),
        ] + spec_expand(rest, cursor),
{
    let a = seq![Expr::Key(KeyExpr { key: k, action: None })] + rest;
    assert(a.drop_first() =~= rest);
}

/// A wait token expands to no entry of its own: the expansion is that
/// of the rest, with the running delay moved forward.
pub proof fn lemma_expand_wait(ms: u64, rest: Seq<Expr>, cursor: int)
    ensures
        spec_expand(seq![Expr::Wait(WaitExpr { milliseconds: ms })] + rest, cursor) == spec_expand(
            rest,
            spec_advance(cursor, ms),
        ),
{
    let a = seq![Expr::Wait(WaitExpr { milliseconds: ms })] + rest;
    assert(a.drop_first() =~= rest);
}

/// Expands an action into its timed events, exactly as `spec_expand`
/// says, starting from delay 0. A pure function of the action alone:
/// the contract pins every entry, so repeated calls on one input yield
/// one result. Accumulated waits saturate at the largest representable
/// delay instead of overflowing.
pub fn action_to_events(action: &Expressions) -> (r: Vec<(i64, Event)>)
    ensures
        r@ == spec_expand(action@, 0),
{
    let mut current_delay: i64 = 0;
    let mut result: Vec<(i64, Event)> = Vec::with_capacity(action.len());
    let n = action.len();
    let mut i: usize = 0;
    proof {
        assert(action@.skip(0) =~= action@);
    }
    while i < n
        invariant
            0 <= i <= n,
            n == action@.len(),
            0 <= current_delay,
            spec_expand(action@, 0) =~= result@ + spec_expand(
                action@.skip(i as int),
                current_delay as int,
            ),
        decreases n - i,
    {
        let ghost todo = action@.skip(i as int);
        proof {
            assert(todo[0] == action@[i as int]);
            assert(todo.drop_first() =~= action@.skip(i as int + 1));
        }
        let ghost result_pre = result@;
        let ghost delay_pre = current_delay;
        match action[i] {
            Expr::Key(key_expr) => {
                match key_expr.action {
                    Some(act) => {
                        result.push((current_delay, Event { key: key_expr.key, action: act }));
                    },
                    None => {
                        result.push(
                            (current_delay, Event { key: key_expr.key, action: Action::Press }),
                        );
                        result.push(
                            (current_delay, Event { key: key_expr.key, action: Action::Release }),
                        );
                    },
                }
            },
            Expr::Wait(w) => {
                let ms = w.milliseconds;
                if ms > (i64::MAX - current_delay) as u64 {
                    current_delay = i64::MAX;
                } else {
                    current_delay = current_delay + ms as i64;
                }
                proof {
                    assert(current_delay as int == spec_advance(delay_pre as int, ms));
                }
            },
        }
        proof {
            assert(result_pre + spec_expand(todo, delay_pre as int) =~= result@ + spec_expand(
                action@.skip(i as int + 1),
                current_delay as int,
            ));
        }
        i = i + 1;
    }
    proof {
        assert(action@.skip(n as int) =~= Seq::<Expr>::empty());
    }
    result
}

} // verus!
