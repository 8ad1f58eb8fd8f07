use vstd::prelude::*;

use crate::config::key_names::{key_name_bytes, spec_is_digit, spec_key_name};
use crate::key_buffer::Action;
use crate::keys::KeyCode;
use vstd::string::StringSliceAdditionalSpecFns;

verus! {

/// A key token of the combo language: a key name, optionally preceded
/// by an explicit direction (`up` or `down`). A bare name means a tap
/// in an action and "both transitions required" in a condition.
#[derive(Debug, Clone, Copy, PartialEq, Eq)]
pub struct KeyExpr {
    pub key: KeyCode,
    pub action: Option<Action>,
}

/// A `wait <ms>` token: a delay between the surrounding key tokens.
#[derive(Debug, Clone, Copy, PartialEq, Eq)]
pub struct WaitExpr {
    pub milliseconds: u64,
}

#[derive(Debug, Clone, Copy, PartialEq, Eq)]
pub enum Expr {
    Key(KeyExpr),
    Wait(WaitExpr),
}

/// A parsed `+`-joined expression: a condition or an action of a combo.
pub type Expressions = Vec<Expr>;

pub const SPACE: u8 = 32;

pub const PLUS: u8 = 43;

pub const TAB: u8 = 9;

pub const NEWLINE: u8 = 10;

pub const RETURN: u8 = 13;

pub open spec fn spec_is_ws(b: u8) -> bool {
    b == SPACE || b == TAB || b == NEWLINE || b == RETURN
}

pub open spec fn spec_to_lower(b: u8) -> u8 {
    if 65 <= b <= 90 {
        (b + 32) as u8
    } else {
        b
    }
}

pub open spec fn spec_lower(s: Seq<u8>) -> Seq<u8> {
    s.map_values(|b: u8| spec_to_lower(b))
}

pub open spec fn spec_trim_start(s: Seq<u8>) -> Seq<u8>
    decreases s.len(),
{
    if s.len() > 0 && spec_is_ws(s[0]) {
        spec_trim_start(s.drop_first())
    } else {
        s
    }
}

pub open spec fn spec_trim_end(s: Seq<u8>) -> Seq<u8>
    decreases s.len(),
{
    if s.len() > 0 && spec_is_ws(s.last()) {
        spec_trim_end(s.drop_last())
    } else {
        s
    }
}

/// The bytes with leading and trailing whitespace removed.
pub open spec fn spec_trim(s: Seq<u8>) -> Seq<u8> {
    spec_trim_end(spec_trim_start(s))
}

/// The index of the first occurrence of `c`, or the length if absent.
pub open spec fn first_pos(s: Seq<u8>, c: u8) -> nat
    decreases s.len(),
{
    if s.len() == 0 {
        0
    } else if s[0] == c {
        0
    } else {
        1 + first_pos(s.drop_first(), c)
    }
}

proof fn lemma_first_pos(s: Seq<u8>, c: u8, p: int)
    requires
        0 <= p <= s.len(),
        forall|j: int| 0 <= j < p ==> s[j] != c,
        p < s.len() ==> s[p] == c,
    ensures
        first_pos(s, c) == p,
    decreases s.len(),
{
    if s.len() > 0 {
        if p == 0 {
            if s[0] != c {
                assert(s.len() == 0);
            }
        } else {
            lemma_first_pos(s.drop_first(), c, p - 1);
        }
    }
}

proof fn lemma_trim_start_skip(s: Seq<u8>, lo: int)
    requires
        0 <= lo <= s.len(),
        forall|j: int| 0 <= j < lo ==> spec_is_ws(s[j]),
        lo < s.len() ==> !spec_is_ws(s[lo]),
    ensures
        spec_trim_start(s) =~= s.skip(lo),
    decreases lo,
{
    if lo == 0 {
        assert(s.skip(0) =~= s);
    } else {
        lemma_trim_start_skip(s.drop_first(), lo - 1);
    }
}

proof fn lemma_trim_end_take(s: Seq<u8>, hi: int)
    requires
        0 <= hi <= s.len(),
        forall|j: int| hi <= j < s.len() ==> spec_is_ws(s[j]),
        hi > 0 ==> !spec_is_ws(s[hi - 1]),
    ensures
        spec_trim_end(s) =~= s.take(hi),
    decreases s.len() - hi,
{
    if hi == s.len() {
        if s.len() > 0 && spec_is_ws(s.last()) {
            assert(false);
        }
        assert(s.take(hi) =~= s);
    } else {
        assert(spec_is_ws(s.last()));
        lemma_trim_end_take(s.drop_last(), hi);
        assert(s.drop_last().take(hi) =~= s.take(hi));
    }
}

/// Trimming is taking the subrange between the outermost non-whitespace bytes.
proof fn lemma_trim_subrange(s: Seq<u8>, lo: int, hi: int)
    requires
        0 <= lo <= hi <= s.len(),
        forall|j: int| 0 <= j < lo ==> spec_is_ws(s[j]),
        forall|j: int| hi <= j < s.len() ==> spec_is_ws(s[j]),
        lo < hi ==> !spec_is_ws(s[lo]) && !spec_is_ws(s[hi - 1]),
        lo == hi ==> lo == s.len(),
    ensures
        spec_trim(s) =~= s.subrange(lo, hi),
{
    lemma_trim_start_skip(s, lo);
    let m = s.skip(lo);
    lemma_trim_end_take(m, hi - lo);
    assert(m.take(hi - lo) =~= s.subrange(lo, hi));
}

/// The decimal value of a digit string (of any length, so exact even
/// where the value no longer fits in a machine word).
pub open spec fn spec_digits_val(t: Seq<u8>) -> int
    decreases t.len(),
{
    if t.len() == 0 {
        0
    } else {
        spec_digits_val(t.drop_last()) * 10 + (t.last() - 48)
    }
}

pub open spec fn spec_all_digits(t: Seq<u8>) -> bool {
    forall|i: int| 0 <= i < t.len() ==> spec_is_digit(#[trigger] t[i])
}

/// What `<ms>` means in a `wait <ms>` token: a non-empty digit string
/// whose value fits in 64 bits.
pub open spec fn spec_parse_u64(t: Seq<u8>) -> Option<u64> {
    if t.len() > 0 && spec_all_digits(t) && spec_digits_val(t) <= u64::MAX {
        Some(spec_digits_val(t) as u64)
    } else {
        None
    }
}

proof fn lemma_digits_val_nonneg(t: Seq<u8>)
    requires
        spec_all_digits(t),
    ensures
        spec_digits_val(t) >= 0,
    decreases t.len(),
{
    if t.len() > 0 {
        assert(spec_all_digits(t.drop_last())) by {
            assert(forall|i: int| 0 <= i < t.len() - 1 ==> t.drop_last()[i] == t[i]);
        }
        lemma_digits_val_nonneg(t.drop_last());
    }
}

/// A digit string is worth at least any of its prefixes.
proof fn lemma_digits_val_prefix(t: Seq<u8>, i: int)
    requires
        spec_all_digits(t),
        0 <= i <= t.len(),
    ensures
        spec_digits_val(t.take(i)) <= spec_digits_val(t),
    decreases t.len() - i,
{
    if i == t.len() {
        assert(t.take(i) =~= t);
    } else {
        assert(spec_all_digits(t.take(i)));
        lemma_digits_val_nonneg(t.take(i));
        assert(t.take(i + 1).drop_last() =~= t.take(i));
        assert(spec_digits_val(t.take(i + 1)) == spec_digits_val(t.take(i)) * 10 + (t[i]
            - 48));
        lemma_digits_val_prefix(t, i + 1);
    }
}

/// Reads a decimal number from bytes, exactly as `spec_parse_u64` says:
/// nothing but digits, at least one, and a value that fits.
pub fn parse_u64_bytes(t: &[u8]) -> (r: Option<u64>)
    ensures
        r == spec_parse_u64(t@),
{
    let n = t.len();
    if n == 0 {
        return None;
    }
    let mut v: u64 = 0;
    let mut i: usize = 0;
    while i < n
        invariant
            0 <= i <= n,
            n == t@.len(),
            spec_all_digits(t@.take(i as int)),
            v == spec_digits_val(t@.take(i as int)),
        decreases n - i,
    {
        let b = t[i];
        if b < 48 || b > 57 {
            assert(!spec_all_digits(t@));
            return None;
        }
        let d = b - 48;
        proof {
            assert(t@.take(i as int + 1).drop_last() =~= t@.take(i as int));
        }
        let w = match v.checked_mul(10) {
            Some(w) => w,
            None => {
                proof {
                    if spec_all_digits(t@) {
                        lemma_digits_val_prefix(t@, i as int + 1);
                    }
                }
                return None;
            },
        };
        let w2 = match w.checked_add(d as u64) {
            Some(w2) => w2,
            None => {
                proof {
                    if spec_all_digits(t@) {
                        lemma_digits_val_prefix(t@, i as int + 1);
                    }
                }
                return None;
            },
        };
        v = w2;
        i = i + 1;
    }
    proof {
        assert(t@.take(n as int) =~= t@);
    }
    Some(v)
}

/// The token `wait`.
pub open spec fn spec_wait_name(t: Seq<u8>) -> bool {
    t.len() == 4 && t[0] == 119 && t[1] == 97 && t[2] == 105 && t[3] == 116
}

/// The direction a token names: `up` releases, `down` presses.
pub open spec fn spec_action_name(t: Seq<u8>) -> Option<Action> {
    if t.len() == 2 && t[0] == 117 && t[1] == 112 {
        Some(Action::Release)
    } else if t.len() == 4 && t[0] == 100 && t[1] == 111 && t[2] == 119 && t[3] == 110 {
        Some(Action::Press)
    } else {
        None
    }
}

fn wait_name_bytes(t: &[u8]) -> (r: bool)
    ensures
        r == spec_wait_name(t@),
{
    t.len() == 4 && t[0] == 119 && t[1] == 97 && t[2] == 105 && t[3] == 116
}

fn action_name_bytes(t: &[u8]) -> (r: Option<Action>)
    ensures
        r == spec_action_name(t@),
{
    if t.len() == 2 && t[0] == 117 && t[1] == 112 {
        Some(Action::Release)
    } else if t.len() == 4 && t[0] == 100 && t[1] == 111 && t[2] == 119 && t[3] == 110 {
        Some(Action::Press)
    } else {
        None
    }
}

impl Action {
    /// Reads a direction name, exactly as `spec_action_name` says.
    pub fn from_str(s: &str) -> (r: Result<Action, &'static str>)
        ensures
            match r {
                Ok(a) => spec_action_name(s.spec_bytes()) == Some(a),
                Err(_) => spec_action_name(s.spec_bytes()) is None,
            },
    {
        match action_name_bytes(s.as_bytes()) {
            Some(a) => Ok(a),
            None => Err("Unknown action"),
        }
    }
}

/// Looks a key name up, exactly as `spec_key_name` says. Names are
/// matched as written: an upper-case spelling is not a key name (the
/// expression parser lowers its input before looking names up).
pub fn to_u_key(s: &str) -> (r: Result<KeyCode, &'static str>)
    ensures
        match r {
            Ok(k) => spec_key_name(s.spec_bytes()) == Some(k),
            Err(_) => spec_key_name(s.spec_bytes()) is None,
        },
{
    match key_name_bytes(s.as_bytes()) {
        Some(k) => Ok(k),
        None => Err("Unknown key name"),
    }
}

/// What one `+`-separated piece of an expression means, after trimming
/// the whitespace around it: a bare key name; or two space-separated
/// words — `wait` and a delay, or a direction and a key name with the
/// direction written on either side (`down leftctrl` and `leftctrl
/// down` name the same transition). Anything else (more words, an
/// unknown name, a bad number) is refused.
pub open spec fn spec_parse_segment(seg: Seq<u8>) -> Option<Expr> {
    let t = spec_trim(seg);
    let p = first_pos(t, SPACE);
    if p >= t.len() {
        match spec_key_name(t) {
            Some(k) => Some(Expr::Key(KeyExpr { key: k, action: None })),
            None => None,
        }
    } else {
        let t0 = t.take(p as int);
        let t1 = t.skip(p as int + 1);
        if first_pos(t1, SPACE) < t1.len() {
            None
        } else if spec_wait_name(t0) {
            match spec_parse_u64(t1) {
                Some(ms) => Some(Expr::Wait(WaitExpr { milliseconds: ms })),
                None => None,
            }
        } else {
            match spec_action_name(t0) {
                Some(a) => match spec_key_name(t1) {
                    Some(k) => Some(Expr::Key(KeyExpr { key: k, action: Some(a) })),
                    None => None,
                },
                None => match (spec_key_name(t0), spec_action_name(t1)) {
                    (Some(k), Some(a)) => Some(Expr::Key(KeyExpr { key: k, action: Some(a) })),
                    _ => None,
                },
            }
        }
    }
}

/// What a whole (lowered) expression means: its `+`-separated segments,
/// each read by `spec_parse_segment`, in order; refused as soon as one
/// segment is refused.
pub open spec fn spec_parse_exprs(s: Seq<u8>) -> Option<Seq<Expr>>
    decreases s.len(),
{
    let p = first_pos(s, PLUS);
    if p >= s.len() {
        match spec_parse_segment(s) {
            Some(e) => Some(seq![e]),
            None => None,
        }
    } else {
        match spec_parse_segment(s.take(p as int)) {
            Some(e) => match spec_parse_exprs(s.skip(p as int + 1)) {
                Some(rest) => Some(seq![e] + rest),
                None => None,
            },
            None => None,
        }
    }
}

/// What an expression string means: it is lowered first, so names may
/// be written in any case.
pub open spec fn spec_parse_expr(raw: Seq<u8>) -> Option<Seq<Expr>> {
    spec_parse_exprs(spec_lower(raw))
}

fn is_ws_byte(b: u8) -> (r: bool)
    ensures
        r == spec_is_ws(b),
{
    b == SPACE || b == TAB || b == NEWLINE || b == RETURN
}

fn parse_segment(seg: &[u8]) -> (r: Option<Expr>)
    ensures
        r == spec_parse_segment(seg@),
{
    let n = seg.len();
    let mut lo: usize = 0;
    while lo < n && is_ws_byte(seg[lo])
        invariant
            0 <= lo <= n,
            n == seg@.len(),
            forall|j: int| 0 <= j < lo ==> spec_is_ws(seg@[j]),
        decreases n - lo,
    {
        lo = lo + 1;
    }
    let mut hi: usize = n;
    while hi > lo && is_ws_byte(seg[hi - 1])
        invariant
            lo <= hi <= n,
            n == seg@.len(),
            forall|j: int| hi <= j < n ==> spec_is_ws(seg@[j]),
            lo < n ==> !spec_is_ws(seg@[lo as int]),
        decreases hi,
    {
        hi = hi - 1;
    }
    proof {
        lemma_trim_subrange(seg@, lo as int, hi as int);
    }
    let t = &seg[lo..hi];
    let tn = t.len();
    let ghost tv = t@;
    let mut p: usize = 0;
    while p < tn && t[p] != SPACE
        invariant
            0 <= p <= tn,
            tn == tv.len(),
            t@ == tv,
            forall|j: int| 0 <= j < p ==> tv[j] != SPACE,
        decreases tn - p,
    {
        p = p + 1;
    }
    proof {
        lemma_first_pos(tv, SPACE, p as int);
    }
    if p == tn {
        match key_name_bytes(t) {
            Some(k) => Some(Expr::Key(KeyExpr { key: k, action: None })),
            None => None,
        }
    } else {
        let t0 = &t[0..p];
        let t1 = &t[p + 1..tn];
        proof {
            assert(t0@ =~= tv.take(p as int));
            assert(t1@ =~= tv.skip(p as int + 1));
        }
        let t1n = t1.len();
        let mut q: usize = 0;
        while q < t1n && t1[q] != SPACE
            invariant
                0 <= q <= t1n,
                t1n == t1@.len(),
                t1@ == tv.skip(p as int + 1),
                forall|j: int| 0 <= j < q ==> t1@[j] != SPACE,
            decreases t1n - q,
        {
            q = q + 1;
        }
        proof {
            lemma_first_pos(t1@, SPACE, q as int);
        }
        if q < t1n {
            return None;
        }
        if wait_name_bytes(t0) {
            match parse_u64_bytes(t1) {
                Some(ms) => Some(Expr::Wait(WaitExpr { milliseconds: ms })),
                None => None,
            }
        } else {
            match action_name_bytes(t0) {
                Some(a) => match key_name_bytes(t1) {
                    Some(k) => Some(Expr::Key(KeyExpr { key: k, action: Some(a) })),
                    None => None,
                },
                None => match (key_name_bytes(t0), action_name_bytes(t1)) {
                    (Some(k), Some(a)) => Some(Expr::Key(KeyExpr { key: k, action: Some(a) })),
                    _ => None,
                },
            }
        }
    }
}

/// Parses a whole condition or action expression: `+`-joined segments,
/// matched case-insensitively. Returns the parsed tokens in order, or
/// an error exactly when `spec_parse_expr` refuses the string.
pub fn parse_expr(input: &str) -> (r: Result<Expressions, &'static str>)
    ensures
        match r {
            Ok(v) => spec_parse_expr(input.spec_bytes()) == Some(v@),
            Err(_) => spec_parse_expr(input.spec_bytes()) is None,
        },
{
    let b = input.as_bytes();
    let n = b.len();
    let mut low: Vec<u8> = Vec::with_capacity(n);
    let mut i: usize = 0;
    while i < n
        invariant
            0 <= i <= n,
            n == b@.len(),
            low@ =~= spec_lower(b@.take(i as int)),
        decreases n - i,
    {
        let x = b[i];
        let y = if x >= 65 && x <= 90 {
            x + 32
        } else {
            x
        };
        low.push(y);
        proof {
            assert(b@.take(i as int + 1) =~= b@.take(i as int).push(b@[i as int]));
            assert(spec_lower(b@.take(i as int + 1)) =~= spec_lower(b@.take(i as int)).push(
                spec_to_lower(b@[i as int]),
            ));
        }
        i = i + 1;
    }
    proof {
        assert(b@.take(n as int) =~= b@);
    }
    let ghost l = low@;
    let nl = low.len();
    let mut exprs: Vec<Expr> = Vec::new();
    let mut start: usize = 0;
    proof {
        assert(low@ =~= spec_lower(b@));
        assert(l.skip(0) =~= l);
        match spec_parse_exprs(l) {
            Some(r0) => {
                assert(exprs@ + r0 =~= r0);
            },
            None => {},
        }
    }
    loop
        invariant_except_break
            0 <= start <= nl,
            nl == l.len(),
            low@ == l,
            l == spec_lower(input.spec_bytes()),
            match spec_parse_exprs(l.skip(start as int)) {
                Some(rest) => spec_parse_exprs(l) == Some(exprs@ + rest),
                None => spec_parse_exprs(l) is None,
            },
        ensures
            spec_parse_exprs(l) == Some(exprs@),
            l == spec_lower(input.spec_bytes()),
        decreases nl - start,
    {
        let ghost rem = l.skip(start as int);
        let mut j: usize = start;
        while j < nl && low[j] != PLUS
            invariant
                start <= j <= nl,
                nl == l.len(),
                low@ == l,
                forall|k: int| start <= k < j ==> l[k] != PLUS,
            decreases nl - j,
        {
            j = j + 1;
        }
        proof {
            assert(forall|k: int| 0 <= k < j - start ==> rem[k] != PLUS);
            lemma_first_pos(rem, PLUS, j - start as int);
        }
        let seg = &low.as_slice()[start..j];
        proof {
            if j == nl {
                assert(seg@ =~= rem);
            } else {
                assert(seg@ =~= rem.take(j - start as int));
            }
        }
        let e = match parse_segment(seg) {
            Some(e) => e,
            None => {
                return Err("could not parse expression");
            },
        };
        exprs.push(e);
        if j == nl {
            proof {
                assert(spec_parse_exprs(l) == Some(exprs@)) by {
                    assert(exprs@ =~= exprs@.drop_last() + seq![e]);
                }
            }
            break ;
        }
        proof {
            assert(rem.skip(j - start as int + 1) =~= l.skip(j as int + 1));
            match spec_parse_exprs(l.skip(j as int + 1)) {
                Some(rest2) => {
                    assert(exprs@.drop_last() + (seq![e] + rest2) =~= exprs@ + rest2);
                },
                None => {},
            }
        }
        start = j + 1;
    }
    Ok(exprs)
}

} // verus!
