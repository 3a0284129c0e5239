//! General laws of the engine, proved once and for all templates, maps and
//! options: literal templates pass through unchanged, escaping protects a
//! placeholder, a single placeholder means exactly the looked-up value (or
//! the configured degradation), recursive expansion means the expansion of
//! the looked-up value, mirror indirection follows the chain, and too few
//! closing braces report exactly how many are missing.

use vstd::prelude::*;

use crate::errors::{missing_bracket_msg, unknown_field_msg, ErrorView};
use crate::options::{missing_key_output, OptionsView};
use crate::scanner::{
    generates, key_scan, mirror_chain, placeholder_shape, prepend, repeat_text, run_len, scan,
    ChainResult, Outcome,
};

verus! {

/// A key text that the scanner reads back verbatim: free of the four
/// characters that the placeholder micro-syntax gives a meaning to.
pub open spec fn plain_key(k: Seq<char>) -> bool {
    forall|j: int|
        0 <= j < k.len() ==> k[j] != '{' && k[j] != '}' && k[j] != '\\' && k[j] != '*'
}

/// The template `{{k}}`.
pub open spec fn placeholder_template(k: Seq<char>) -> Seq<char> {
    seq!['{', '{'] + k + seq!['}', '}']
}

/// The template `\{{k}}`.
pub open spec fn escaped_placeholder_template(k: Seq<char>) -> Seq<char> {
    seq!['\\', '{', '{'] + k + seq!['}', '}']
}

/// The template `{{{k}}}`.
pub open spec fn recursive_placeholder_template(k: Seq<char>) -> Seq<char> {
    seq!['{', '{', '{'] + k + seq!['}', '}', '}']
}

/// The template `{{*...*k}}` with `n` asterisks.
pub open spec fn mirror_placeholder_template(k: Seq<char>, n: nat) -> Seq<char> {
    seq!['{', '{'] + Seq::new(n, |i: int| '*') + k + seq!['}', '}']
}

/// The malformed template `{{k}`.
pub open spec fn unclosed_placeholder_template(k: Seq<char>) -> Seq<char> {
    seq!['{', '{'] + k + seq!['}']
}

/// The malformed template `{{{k}}`.
pub open spec fn unclosed_recursive_template(k: Seq<char>) -> Seq<char> {
    seq!['{', '{', '{'] + k + seq!['}', '}']
}

/// A run of text free of `{` and `\` is copied verbatim.
proof fn lemma_plain_scan(
    t: Seq<char>,
    m: Map<Seq<char>, Seq<char>>,
    o: OptionsView,
    fuel: nat,
    i: int,
)
    requires
        0 <= i <= t.len(),
        forall|j: int| i <= j < t.len() ==> t[j] != '{' && t[j] != '\\',
    ensures
        scan(t, m, o, fuel, i) == Outcome::Done(t.subrange(i, t.len() as int)),
    decreases t.len() - i,
{
    if i == t.len() {
        assert(t.subrange(i, t.len() as int) =~= Seq::<char>::empty());
    } else {
        lemma_plain_scan(t, m, o, fuel, i + 1);
        assert(scan(t, m, o, fuel, i) == prepend(
            seq![t[i]],
            scan(t, m, o, fuel, i + 1),
        ));
        assert(seq![t[i]] + t.subrange(i + 1, t.len() as int) =~= t.subrange(i, t.len() as int));
    }
}

/// A key scan over text free of `}` and `\`, stopped by a `}` at `stop`,
/// reads exactly that text.
proof fn lemma_key_scan_plain(t: Seq<char>, i: int, stop: int)
    requires
        0 <= i <= stop < t.len(),
        t[stop] == '}',
        forall|j: int| i <= j < stop ==> t[j] != '}' && t[j] != '\\',
    ensures
        key_scan(t, i) == (t.subrange(i, stop), stop),
    decreases stop - i,
{
    if i == stop {
        assert(t.subrange(i, stop) =~= Seq::<char>::empty());
    } else {
        lemma_key_scan_plain(t, i + 1, stop);
        assert(seq![t[i]] + t.subrange(i + 1, stop) =~= t.subrange(i, stop));
    }
}

/// A run of exactly `n` copies of `c` has length `n`.
proof fn lemma_run_len_exact(t: Seq<char>, i: int, c: char, n: nat)
    requires
        0 <= i,
        i + n <= t.len(),
        forall|j: int| i <= j < i + n ==> t[j] == c,
        i + n == t.len() || t[i + n] != c,
    ensures
        run_len(t, i, c) == n,
    decreases n,
{
    if n == 0 {
    } else {
        lemma_run_len_exact(t, i + 1, c, (n - 1) as nat);
    }
}

/// A template containing neither `{` nor `\` renders to itself, whatever the
/// map and the options.
pub proof fn lemma_literal_template(t: Seq<char>, m: Map<Seq<char>, Seq<char>>, o: OptionsView)
    requires
        forall|j: int| 0 <= j < t.len() ==> t[j] != '{' && t[j] != '\\',
    ensures
        scan(t, m, o, 0, 0) == Outcome::Done(t),
        generates(t, m, o, Outcome::Done(t)),
{
    lemma_plain_scan(t, m, o, 0, 0);
    assert(t.subrange(0, t.len() as int) =~= t);
    assert(scan(t, m, o, 0, 0) == Outcome::Done(t));
}

/// Escaping round-trip: `\{{k}}` renders to the literal text `{{k}}`,
/// whether or not the map contains `k`.
pub proof fn lemma_escaped_placeholder(k: Seq<char>, m: Map<Seq<char>, Seq<char>>, o: OptionsView)
    requires
        plain_key(k),
    ensures
        scan(escaped_placeholder_template(k), m, o, 0, 0) == Outcome::Done(
            placeholder_template(k),
        ),
        generates(escaped_placeholder_template(k), m, o, Outcome::Done(placeholder_template(k))),
{
    let t = escaped_placeholder_template(k);
    assert(t.len() == k.len() + 5);
    assert(t[0] == '\\' && t[1] == '{' && t[2] == '{');
    assert(forall|j: int| 0 <= j < k.len() ==> t[3 + j] == k[j]);
    assert(t[t.len() - 2] == '}' && t[t.len() - 1] == '}');
    lemma_plain_scan(t, m, o, 0, 3);
    assert(t[2] == '{' && t[3] != '{');
    assert(scan(t, m, o, 0, 2) == prepend(seq![t[2]], scan(t, m, o, 0, 3)));
    assert(scan(t, m, o, 0, 0) == prepend(seq![t[1]], scan(t, m, o, 0, 2)));
    assert(seq![t[1]] + (seq![t[2]] + t.subrange(3, t.len() as int)) =~= placeholder_template(k));
    assert(scan(t, m, o, 0, 0) == Outcome::Done(placeholder_template(k)));
}

/// Basic substitution: `{{k}}` renders to the value of `k`; when `k` is
/// absent it fails with `UnknownField` in strict mode, and in tolerant mode
/// renders to the configured mark or to nothing.
pub proof fn lemma_single_placeholder(k: Seq<char>, m: Map<Seq<char>, Seq<char>>, o: OptionsView)
    requires
        plain_key(k),
    ensures
        m.contains_key(k) ==> scan(placeholder_template(k), m, o, 0, 0) == Outcome::Done(m[k]),
        m.contains_key(k) ==> generates(placeholder_template(k), m, o, Outcome::Done(m[k])),
        !m.contains_key(k) && !o.safe_parse ==> scan(placeholder_template(k), m, o, 0, 0)
            == Outcome::Failed(ErrorView::UnknownField(unknown_field_msg(k))),
        !m.contains_key(k) && !o.safe_parse ==> generates(
            placeholder_template(k),
            m,
            o,
            Outcome::Failed(ErrorView::UnknownField(unknown_field_msg(k))),
        ),
        !m.contains_key(k) && o.safe_parse ==> scan(placeholder_template(k), m, o, 0, 0)
            == Outcome::Done(missing_key_output(o, k)),
        !m.contains_key(k) && o.safe_parse ==> generates(
            placeholder_template(k),
            m,
            o,
            Outcome::Done(missing_key_output(o, k)),
        ),
{
    let t = placeholder_template(k);
    let len = t.len() as int;
    assert(t.len() == k.len() + 4);
    assert(t[0] == '{' && t[1] == '{');
    assert(forall|j: int| 0 <= j < k.len() ==> t[2 + j] == k[j]);
    assert(t[len - 2] == '}' && t[len - 1] == '}');
    let sh = placeholder_shape(t, 2);
    assert(t[2] != '{');
    assert(run_len(t, 2, '*') == 0);
    lemma_key_scan_plain(t, 2, 2 + k.len() as int);
    assert(t.subrange(2, 2 + k.len() as int) =~= k);
    assert(sh.key == k && sh.key_end == 2 + k.len() as int && !sh.apply_template && sh.stars == 0);
    lemma_run_len_exact(t, 2 + k.len() as int, '}', 2);
    assert(scan(t, m, o, 0, len) == Outcome::Done(Seq::<char>::empty()));
    if m.contains_key(k) {
        assert(mirror_chain(m, m[k], 0) == ChainResult::Reached(m[k]));
        assert(scan(t, m, o, 0, 0) == prepend(m[k], scan(t, m, o, 0, len)));
        assert(m[k] + Seq::<char>::empty() =~= m[k]);
        assert(scan(t, m, o, 0, 0) == Outcome::Done(m[k]));
    } else if !o.safe_parse {
        assert(scan(t, m, o, 0, 0) == Outcome::Failed(
            ErrorView::UnknownField(unknown_field_msg(k)),
        ));
    } else {
        assert(scan(t, m, o, 0, 0) == prepend(missing_key_output(o, k), scan(t, m, o, 0, len)));
        assert(missing_key_output(o, k) + Seq::<char>::empty() =~= missing_key_output(o, k));
        assert(scan(t, m, o, 0, 0) == Outcome::Done(missing_key_output(o, k)));
    }
}

/// Recursive expansion: `{{{k}}}` means what the value of `k`, read as a
/// template itself, means — output and error alike.
pub proof fn lemma_recursive_placeholder(
    k: Seq<char>,
    m: Map<Seq<char>, Seq<char>>,
    o: OptionsView,
    out: Outcome,
)
    requires
        plain_key(k),
        m.contains_key(k),
        generates(m[k], m, o, out),
    ensures
        generates(recursive_placeholder_template(k), m, o, out),
{
    let t = recursive_placeholder_template(k);
    let len = t.len() as int;
    assert(t.len() == k.len() + 6);
    assert(t[0] == '{' && t[1] == '{' && t[2] == '{');
    assert(forall|j: int| 0 <= j < k.len() ==> t[3 + j] == k[j]);
    assert(t[len - 3] == '}' && t[len - 2] == '}' && t[len - 1] == '}');
    let f = choose|f: nat| scan(m[k], m, o, f, 0) == out;
    let sh = placeholder_shape(t, 2);
    assert(t[2] == '{');
    assert(t[3] != '*');
    assert(run_len(t, 3, '*') == 0);
    lemma_key_scan_plain(t, 3, 3 + k.len() as int);
    assert(t.subrange(3, 3 + k.len() as int) =~= k);
    assert(sh.key == k && sh.key_end == 3 + k.len() as int && sh.apply_template && sh.stars == 0);
    lemma_run_len_exact(t, 3 + k.len() as int, '}', 3);
    assert(mirror_chain(m, m[k], 0) == ChainResult::Reached(m[k]));
    assert(scan(t, m, o, f + 1, len) == Outcome::Done(Seq::<char>::empty()));
    match out {
        Outcome::Done(s) => {
            assert(scan(t, m, o, f + 1, 0) == prepend(s, scan(t, m, o, f + 1, len)));
            assert(s + Seq::<char>::empty() =~= s);
            assert(scan(t, m, o, f + 1, 0) == out);
        },
        Outcome::Failed(e) => {
            assert(scan(t, m, o, f + 1, 0) == out);
        },
        Outcome::Spent => {},
    }
}

/// Mirror indirection: `{{*...*k}}` with `n` asterisks follows `n` further
/// lookups, each using the value just found as the next key.  A complete
/// chain renders to its final value.  A broken chain fails with
/// `UnknownField` naming the key whose lookup failed; in tolerant mode it
/// degrades instead to one mark (or nothing) per remaining scheduled lookup,
/// the failing one included.
pub proof fn lemma_mirror_placeholder(
    k: Seq<char>,
    n: nat,
    m: Map<Seq<char>, Seq<char>>,
    o: OptionsView,
)
    requires
        plain_key(k),
        m.contains_key(k),
    ensures
        mirror_chain(m, m[k], n) matches ChainResult::Reached(v) ==> scan(
            mirror_placeholder_template(k, n),
            m,
            o,
            0,
            0,
        ) == Outcome::Done(v) && generates(mirror_placeholder_template(k, n), m, o, Outcome::Done(v)),
        mirror_chain(m, m[k], n) matches ChainResult::Broken { missing, remaining }
            ==> if !o.safe_parse {
            scan(mirror_placeholder_template(k, n), m, o, 0, 0) == Outcome::Failed(
                ErrorView::UnknownField(unknown_field_msg(missing)),
            ) && generates(
                mirror_placeholder_template(k, n),
                m,
                o,
                Outcome::Failed(ErrorView::UnknownField(unknown_field_msg(missing))),
            )
        } else {
            scan(mirror_placeholder_template(k, n), m, o, 0, 0) == Outcome::Done(
                repeat_text(missing_key_output(o, missing), remaining),
            ) && generates(
                mirror_placeholder_template(k, n),
                m,
                o,
                Outcome::Done(repeat_text(missing_key_output(o, missing), remaining)),
            )
        },
{
    let t = mirror_placeholder_template(k, n);
    let len = t.len() as int;
    assert(t.len() == k.len() + n + 4);
    assert(t[0] == '{' && t[1] == '{');
    assert(forall|j: int| 2 <= j < 2 + n ==> t[j] == '*');
    assert(forall|j: int| 0 <= j < k.len() ==> t[2 + n + j] == k[j]);
    assert(t[len - 2] == '}' && t[len - 1] == '}');
    let sh = placeholder_shape(t, 2);
    assert(t[2] != '{');
    lemma_run_len_exact(t, 2, '*', n);
    lemma_key_scan_plain(t, 2 + n as int, 2 + n as int + k.len() as int);
    assert(t.subrange(2 + n as int, 2 + n as int + k.len() as int) =~= k);
    assert(sh.key == k && sh.key_end == 2 + n as int + k.len() as int && !sh.apply_template && sh.stars == n);
    lemma_run_len_exact(t, 2 + n as int + k.len() as int, '}', 2);
    assert(scan(t, m, o, 0, len) == Outcome::Done(Seq::<char>::empty()));
    match mirror_chain(m, m[k], n) {
        ChainResult::Reached(v) => {
            assert(scan(t, m, o, 0, 0) == prepend(v, scan(t, m, o, 0, len)));
            assert(v + Seq::<char>::empty() =~= v);
            assert(scan(t, m, o, 0, 0) == Outcome::Done(v));
        },
        ChainResult::Broken { missing, remaining } => {
            if !o.safe_parse {
                assert(scan(t, m, o, 0, 0) == Outcome::Failed(
                    ErrorView::UnknownField(unknown_field_msg(missing)),
                ));
            } else {
                let marks = repeat_text(missing_key_output(o, missing), remaining);
                assert(scan(t, m, o, 0, 0) == prepend(marks, scan(t, m, o, 0, len)));
                assert(marks + Seq::<char>::empty() =~= marks);
                assert(scan(t, m, o, 0, 0) == Outcome::Done(marks));
            }
        },
    }
}

/// Malformed syntax: `{{k}` fails with `MissingCurvyBracket` reporting
/// exactly one missing brace, whatever the map and the options.
pub proof fn lemma_missing_one_bracket(k: Seq<char>, m: Map<Seq<char>, Seq<char>>, o: OptionsView)
    requires
        plain_key(k),
    ensures
        scan(unclosed_placeholder_template(k), m, o, 0, 0) == Outcome::Failed(
            ErrorView::MissingCurvyBracket(missing_bracket_msg(1, k)),
        ),
        generates(
            unclosed_placeholder_template(k),
            m,
            o,
            Outcome::Failed(ErrorView::MissingCurvyBracket(missing_bracket_msg(1, k))),
        ),
{
    let t = unclosed_placeholder_template(k);
    let len = t.len() as int;
    assert(t.len() == k.len() + 3);
    assert(t[0] == '{' && t[1] == '{');
    assert(forall|j: int| 0 <= j < k.len() ==> t[2 + j] == k[j]);
    assert(t[len - 1] == '}');
    let sh = placeholder_shape(t, 2);
    assert(t[2] != '{');
    assert(run_len(t, 2, '*') == 0);
    lemma_key_scan_plain(t, 2, 2 + k.len() as int);
    assert(t.subrange(2, 2 + k.len() as int) =~= k);
    assert(sh.key == k && sh.key_end == 2 + k.len() as int && !sh.apply_template && sh.stars == 0);
    lemma_run_len_exact(t, 2 + k.len() as int, '}', 1);
    assert(scan(t, m, o, 0, 0) == Outcome::Failed(
        ErrorView::MissingCurvyBracket(missing_bracket_msg(1, k)),
    ));
}

/// Malformed syntax in the three-brace form: `{{{k}}` fails with
/// `MissingCurvyBracket` reporting exactly one missing brace.
pub proof fn lemma_missing_bracket_recursive(
    k: Seq<char>,
    m: Map<Seq<char>, Seq<char>>,
    o: OptionsView,
)
    requires
        plain_key(k),
    ensures
        scan(unclosed_recursive_template(k), m, o, 0, 0) == Outcome::Failed(
            ErrorView::MissingCurvyBracket(missing_bracket_msg(1, k)),
        ),
        generates(
            unclosed_recursive_template(k),
            m,
            o,
            Outcome::Failed(ErrorView::MissingCurvyBracket(missing_bracket_msg(1, k))),
        ),
{
    let t = unclosed_recursive_template(k);
    let len = t.len() as int;
    assert(t.len() == k.len() + 5);
    assert(t[0] == '{' && t[1] == '{' && t[2] == '{');
    assert(forall|j: int| 0 <= j < k.len() ==> t[3 + j] == k[j]);
    assert(t[len - 2] == '}' && t[len - 1] == '}');
    let sh = placeholder_shape(t, 2);
    assert(t[3] != '*');
    assert(run_len(t, 3, '*') == 0);
    lemma_key_scan_plain(t, 3, 3 + k.len() as int);
    assert(t.subrange(3, 3 + k.len() as int) =~= k);
    assert(sh.key == k && sh.key_end == 3 + k.len() as int && sh.apply_template && sh.stars == 0);
    lemma_run_len_exact(t, 3 + k.len() as int, '}', 2);
    assert(scan(t, m, o, 0, 0) == Outcome::Failed(
        ErrorView::MissingCurvyBracket(missing_bracket_msg(1, k)),
    ));
}

} // verus!
