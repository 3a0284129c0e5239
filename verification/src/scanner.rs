//! The mathematical model of the substitution engine: a single left-to-right
//! scan of the template, stated as a recursive spec function.
//!
//! Recursive expansion (`{{{key}}}`) re-interprets a resolved value as a
//! further template, and a cyclic chain of entries would expand forever.  The
//! model therefore carries a `fuel` bound on the nesting depth and returns a
//! third outcome, `Spent`, when the bound is reached; outcomes other than
//! `Spent` do not change when the fuel grows, so a template either has one
//! fixed meaning at every sufficient fuel or exhausts every fuel.

use vstd::prelude::*;

use crate::errors::{missing_bracket_msg, unknown_field_msg, ErrorView};
use crate::options::{missing_key_output, OptionsView};

verus! {

/// What a scan yields: a finished output, an error, or fuel exhaustion.
pub enum Outcome {
    Done(Seq<char>),
    Failed(ErrorView),
    Spent,
}

/// Prefixes finished output with `s`; errors and exhaustion pass through.
pub open spec fn prepend(s: Seq<char>, o: Outcome) -> Outcome {
    match o {
        Outcome::Done(r) => Outcome::Done(s + r),
        _ => o,
    }
}

/// The length of the run of copies of `c` in `t` starting at `i`.
pub open spec fn run_len(t: Seq<char>, i: int, c: char) -> nat
    decreases t.len() - i,
{
    if i < 0 || i >= t.len() || t[i] != c {
        0
    } else {
        1 + run_len(t, i + 1, c)
    }
}

/// Bounds and content of a run.
pub proof fn lemma_run_len_bounds(t: Seq<char>, i: int, c: char)
    ensures
        i <= t.len() ==> i + run_len(t, i, c) <= t.len(),
        forall|j: int| i <= j < i + run_len(t, i, c) ==> t[j] == c,
        0 <= i && i + run_len(t, i, c) < t.len() ==> t[i + run_len(t, i, c)] != c,
    decreases t.len() - i,
{
    if 0 <= i < t.len() && t[i] == c {
        lemma_run_len_bounds(t, i + 1, c);
    }
}

/// The characters that `\` protects inside a placeholder's key.
pub open spec fn is_key_escape(c: char) -> bool {
    c == '*' || c == '\\' || c == '{' || c == '}'
}

/// The characters that `\` protects in literal text.
pub open spec fn is_literal_escape(c: char) -> bool {
    c == '{' || c == '}' || c == '\\'
}

/// Reads a placeholder's key starting at `i`: consumes characters up to the
/// first unescaped `}` or the end of input.  Returns the key text and the
/// position of that `}` (or the length of `t`).  Within the key, `\` followed
/// by `*`, `\`, `{` or `}` contributes that character; `\` followed by
/// anything else contributes a literal `\` without consuming what follows.
pub open spec fn key_scan(t: Seq<char>, i: int) -> (Seq<char>, int)
    decreases t.len() - i,
{
    if i < 0 || i >= t.len() {
        (Seq::empty(), t.len() as int)
    } else if t[i] == '}' {
        (Seq::empty(), i)
    } else if t[i] == '\\' {
        if i + 1 < t.len() && is_key_escape(t[i + 1]) {
            let r = key_scan(t, i + 2);
            (seq![t[i + 1]] + r.0, r.1)
        } else {
            let r = key_scan(t, i + 1);
            (seq!['\\'] + r.0, r.1)
        }
    } else {
        let r = key_scan(t, i + 1);
        (seq![t[i]] + r.0, r.1)
    }
}

/// Where a key scan stops, relative to where it starts.
pub proof fn lemma_key_scan_bounds(t: Seq<char>, i: int)
    ensures
        0 <= i <= t.len() ==> i <= key_scan(t, i).1 <= t.len(),
    decreases t.len() - i,
{
    if 0 <= i < t.len() && t[i] != '}' {
        if t[i] == '\\' && i + 1 < t.len() && is_key_escape(t[i + 1]) {
            lemma_key_scan_bounds(t, i + 2);
        } else {
            lemma_key_scan_bounds(t, i + 1);
        }
    }
}

/// The parsed-in-place shape of a placeholder whose body starts at `p` (the
/// position right after the opening `{{`): the optional third `{` asking for
/// recursive expansion, the run of `*` asking for mirror indirection, the key
/// text, and the position where the key scan stopped.
pub struct PlaceholderShape {
    pub apply_template: bool,
    pub stars: nat,
    pub key: Seq<char>,
    pub key_end: int,
}

pub open spec fn placeholder_shape(t: Seq<char>, p: int) -> PlaceholderShape {
    let apply_template = p < t.len() && t[p] == '{';
    let p1 = if apply_template {
        p + 1
    } else {
        p
    };
    let stars = run_len(t, p1, '*');
    let ks = key_scan(t, p1 + stars);
    PlaceholderShape { apply_template, stars, key: ks.0, key_end: ks.1 }
}

/// How many closing braces the placeholder must find.
pub open spec fn required_closes(sh: PlaceholderShape) -> nat {
    if sh.apply_template {
        3
    } else {
        2
    }
}

/// The result of following a mirror chain: `count` further lookups, each
/// using the value just found as the next key.
pub enum ChainResult {
    /// The chain ran to its end and resolved to this value.
    Reached(Seq<char>),
    /// A lookup failed: `missing` is the key whose lookup failed, and
    /// `remaining` how many scheduled lookups were left, the failing one
    /// included.
    Broken { missing: Seq<char>, remaining: nat },
}

pub open spec fn mirror_chain(
    m: Map<Seq<char>, Seq<char>>,
    value: Seq<char>,
    count: nat,
) -> ChainResult
    decreases count,
{
    if count == 0 {
        ChainResult::Reached(value)
    } else if m.contains_key(value) {
        mirror_chain(m, m[value], (count - 1) as nat)
    } else {
        ChainResult::Broken { missing: value, remaining: count }
    }
}

/// `s` written `n` times in a row.
pub open spec fn repeat_text(s: Seq<char>, n: nat) -> Seq<char>
    decreases n,
{
    if n == 0 {
        Seq::empty()
    } else {
        repeat_text(s, (n - 1) as nat) + s
    }
}

/// Two prefixes in a row are one longer prefix.
pub proof fn lemma_prepend_prepend(a: Seq<char>, b: Seq<char>, o: Outcome)
    ensures
        prepend(a, prepend(b, o)) == prepend(a + b, o),
{
    match o {
        Outcome::Done(r) => {
            assert(a + (b + r) =~= (a + b) + r);
        },
        _ => {},
    }
}

/// Repeating the empty text yields the empty text.
pub proof fn lemma_repeat_text_empty(n: nat)
    ensures
        repeat_text(Seq::<char>::empty(), n) == Seq::<char>::empty(),
    decreases n,
{
    if n > 0 {
        lemma_repeat_text_empty((n - 1) as nat);
        assert(Seq::<char>::empty() + Seq::<char>::empty() =~= Seq::<char>::empty());
    }
}

/// One left-to-right scan of `t` from position `i` against the flat map `m`
/// under options `o`, allowed to nest `fuel` further recursive expansions.
///
/// Literal text is copied; `\` escapes `{`, `}` and `\`; a lone `{` is
/// literal; `{{` opens a placeholder.  A placeholder resolves its key, then
/// follows one mirror lookup per `*`, then — for the `{{{...}}}` form —
/// re-interprets the resolved value as a template.  A missing key aborts with
/// `UnknownField` unless `safe_parse` is set, in which case it degrades to a
/// mark (or nothing); a broken mirror chain degrades once per remaining
/// scheduled lookup.  Too few closing braces always abort with
/// `MissingCurvyBracket`.
pub open spec fn scan(
    t: Seq<char>,
    m: Map<Seq<char>, Seq<char>>,
    o: OptionsView,
    fuel: nat,
    i: int,
) -> Outcome
    decreases fuel, t.len() - i,
        via scan_decreases
{
    if i < 0 || i >= t.len() {
        Outcome::Done(Seq::empty())
    } else if t[i] == '\\' {
        if i + 1 < t.len() && is_literal_escape(t[i + 1]) {
            prepend(seq![t[i + 1]], scan(t, m, o, fuel, i + 2))
        } else {
            prepend(seq!['\\'], scan(t, m, o, fuel, i + 1))
        }
    } else if t[i] == '{' && i + 1 < t.len() && t[i + 1] == '{' {
        let sh = placeholder_shape(t, i + 2);
        let req = required_closes(sh);
        let closes = run_len(t, sh.key_end, '}');
        if closes < req {
            Outcome::Failed(
                ErrorView::MissingCurvyBracket(missing_bracket_msg((req - closes) as nat, sh.key)),
            )
        } else {
            let j = sh.key_end + req;
            if !m.contains_key(sh.key) {
                if !o.safe_parse {
                    Outcome::Failed(ErrorView::UnknownField(unknown_field_msg(sh.key)))
                } else {
                    prepend(missing_key_output(o, sh.key), scan(t, m, o, fuel, j))
                }
            } else {
                match mirror_chain(m, m[sh.key], sh.stars) {
                    ChainResult::Reached(v) => {
                        if sh.apply_template {
                            if fuel == 0 {
                                Outcome::Spent
                            } else {
                                match scan(v, m, o, (fuel - 1) as nat, 0) {
                                    Outcome::Done(s) => prepend(s, scan(t, m, o, fuel, j)),
                                    Outcome::Failed(e) => Outcome::Failed(e),
                                    Outcome::Spent => Outcome::Spent,
                                }
                            }
                        } else {
                            prepend(v, scan(t, m, o, fuel, j))
                        }
                    },
                    ChainResult::Broken { missing, remaining } => {
                        if !o.safe_parse {
                            Outcome::Failed(ErrorView::UnknownField(unknown_field_msg(missing)))
                        } else {
                            prepend(
                                repeat_text(missing_key_output(o, missing), remaining),
                                scan(t, m, o, fuel, j),
                            )
                        }
                    },
                }
            }
        }
    } else {
        prepend(seq![t[i]], scan(t, m, o, fuel, i + 1))
    }
}

#[via_fn]
proof fn scan_decreases(t: Seq<char>, m: Map<Seq<char>, Seq<char>>, o: OptionsView, fuel: nat, i: int) {
    if 0 <= i < t.len() {
        let p1 = if i + 2 < t.len() && t[i + 2] == '{' {
            i + 3
        } else {
            i + 2
        };
        lemma_run_len_bounds(t, p1, '*');
        let p2 = p1 + run_len(t, p1, '*');
        lemma_key_scan_bounds(t, p2);
        lemma_run_len_bounds(t, key_scan(t, p2).1, '}');
    }
}

/// Growing the fuel never changes an outcome other than `Spent`.
pub proof fn lemma_scan_fuel_monotonic(
    t: Seq<char>,
    m: Map<Seq<char>, Seq<char>>,
    o: OptionsView,
    f1: nat,
    f2: nat,
    i: int,
)
    requires
        f1 <= f2,
        !(scan(t, m, o, f1, i) is Spent),
    ensures
        scan(t, m, o, f2, i) == scan(t, m, o, f1, i),
    decreases f1, t.len() - i,
{
    if i < 0 || i >= t.len() {
    } else if t[i] == '\\' {
        if i + 1 < t.len() && is_literal_escape(t[i + 1]) {
            lemma_scan_fuel_monotonic(t, m, o, f1, f2, i + 2);
        } else {
            lemma_scan_fuel_monotonic(t, m, o, f1, f2, i + 1);
        }
    } else if t[i] == '{' && i + 1 < t.len() && t[i + 1] == '{' {
        let sh = placeholder_shape(t, i + 2);
        let req = required_closes(sh);
        let closes = run_len(t, sh.key_end, '}');
        let p1 = if i + 2 < t.len() && t[i + 2] == '{' {
            i + 3
        } else {
            i + 2
        };
        lemma_run_len_bounds(t, p1, '*');
        lemma_key_scan_bounds(t, p1 + run_len(t, p1, '*'));
        lemma_run_len_bounds(t, sh.key_end, '}');
        if closes < req {
        } else {
            let j = sh.key_end + req;
            if !m.contains_key(sh.key) {
                if o.safe_parse {
                    lemma_scan_fuel_monotonic(t, m, o, f1, f2, j);
                }
            } else {
                match mirror_chain(m, m[sh.key], sh.stars) {
                    ChainResult::Reached(v) => {
                        if sh.apply_template {
                            lemma_scan_fuel_monotonic(v, m, o, (f1 - 1) as nat, (f2 - 1) as nat, 0);
                            match scan(v, m, o, (f1 - 1) as nat, 0) {
                                Outcome::Done(s) => {
                                    lemma_scan_fuel_monotonic(t, m, o, f1, f2, j);
                                },
                                _ => {},
                            }
                        } else {
                            lemma_scan_fuel_monotonic(t, m, o, f1, f2, j);
                        }
                    },
                    ChainResult::Broken { missing, remaining } => {
                        if o.safe_parse {
                            lemma_scan_fuel_monotonic(t, m, o, f1, f2, j);
                        }
                    },
                }
            }
        }
    } else {
        lemma_scan_fuel_monotonic(t, m, o, f1, f2, i + 1);
    }
}

/// `t`, rendered against `m` under `o`, has the meaning `out` — at some
/// nesting depth, and then (by fuel monotonicity) at every larger one.
pub open spec fn generates(
    t: Seq<char>,
    m: Map<Seq<char>, Seq<char>>,
    o: OptionsView,
    out: Outcome,
) -> bool {
    &&& !(out is Spent)
    &&& exists|fuel: nat| scan(t, m, o, fuel, 0) == out
}

/// A template has at most one meaning.
pub proof fn lemma_generates_deterministic(
    t: Seq<char>,
    m: Map<Seq<char>, Seq<char>>,
    o: OptionsView,
    out1: Outcome,
    out2: Outcome,
)
    requires
        generates(t, m, o, out1),
        generates(t, m, o, out2),
    ensures
        out1 == out2,
{
    let f1 = choose|f: nat| scan(t, m, o, f, 0) == out1;
    let f2 = choose|f: nat| scan(t, m, o, f, 0) == out2;
    if f1 <= f2 {
        lemma_scan_fuel_monotonic(t, m, o, f1, f2, 0);
    } else {
        lemma_scan_fuel_monotonic(t, m, o, f2, f1, 0);
    }
}

} // verus!
