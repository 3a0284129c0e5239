//! The substitution engine: renders a template against a flat map under a
//! given configuration, and is proved to return exactly what the spec-level
//! scan of `crate::scanner` describes.

use vstd::prelude::*;
use vstd::string::{StrSliceExecFns, StringExecFns};

use crate::errors::{missing_bracket_error, unknown_field_error, ErrorView, StringTemplaterError};
use crate::flat_map::FlatMap;
use crate::options::{missing_key_output, render_missing_key, StringTemplaterOptions};
use crate::scanner::{
    generates, key_scan, lemma_key_scan_bounds, lemma_prepend_prepend, lemma_repeat_text_empty,
    lemma_run_len_bounds, mirror_chain, placeholder_shape, prepend, repeat_text, required_closes,
    run_len, scan, ChainResult, Outcome,
};

verus! {

/// What one engine pass yields: the exec shadow of `Outcome`.
enum GenOutcome {
    Finished(String),
    Failed(StringTemplaterError),
    Spent,
}

impl View for GenOutcome {
    type V = Outcome;

    closed spec fn view(&self) -> Outcome {
        match self {
            GenOutcome::Finished(s) => Outcome::Done(s@),
            GenOutcome::Failed(e) => Outcome::Failed(e@),
            GenOutcome::Spent => Outcome::Spent,
        }
    }
}

/// Reads a placeholder's key starting at `start`, as `key_scan` describes.
fn read_key(template: &str, n: usize, start: usize) -> (r: (String, usize))
    requires
        n == template@.len(),
        start <= n,
    ensures
        r.0@ == key_scan(template@, start as int).0,
        r.1 as int == key_scan(template@, start as int).1,
        start <= r.1 <= n,
{
    let ghost gt = template@;
    let mut key = String::new();
    let mut i: usize = start;
    proof {
        lemma_key_scan_bounds(gt, start as int);
    }
    loop
        invariant
            gt == template@,
            n == gt.len(),
            start <= i <= n,
            key_scan(gt, start as int).0 == key@ + key_scan(gt, i as int).0,
            key_scan(gt, start as int).1 == key_scan(gt, i as int).1,
        ensures
            start <= i <= n,
            key_scan(gt, start as int).0 == key@,
            key_scan(gt, start as int).1 == i as int,
        decreases n - i,
    {
        if i >= n {
            proof {
                assert(key@ + Seq::<char>::empty() =~= key@);
            }
            break;
        }
        let c = template.get_char(i);
        if c == '}' {
            proof {
                assert(key@ + Seq::<char>::empty() =~= key@);
            }
            break;
        }
        let ghost key0 = key@;
        if c == '\\' {
            let mut escaped = false;
            if i + 1 < n {
                let c2 = template.get_char(i + 1);
                if c2 == '*' || c2 == '\\' || c2 == '{' || c2 == '}' {
                    escaped = true;
                    key.append(template.substring_char(i + 1, i + 2));
                    proof {
                        assert(gt.subrange(i + 1, i + 2) =~= seq![gt[i + 1]]);
                        assert(key_scan(gt, i as int).0 == seq![gt[i + 1]] + key_scan(
                            gt,
                            i + 2,
                        ).0);
                        assert(key0 + (seq![gt[i + 1]] + key_scan(gt, i + 2).0) =~= (key0
                            + seq![gt[i + 1]]) + key_scan(gt, i + 2).0);
                    }
                    i = i + 2;
                }
            }
            if !escaped {
                key.append("\\");
                proof {
                    reveal_strlit("\\");
                    assert("\\"@ =~= seq!['\\']);
                    assert(key_scan(gt, i as int).0 == seq!['\\'] + key_scan(gt, i + 1).0);
                    assert(key0 + (seq!['\\'] + key_scan(gt, i + 1).0) =~= (key0 + seq!['\\'])
                        + key_scan(gt, i + 1).0);
                }
                i = i + 1;
            }
        } else {
            key.append(template.substring_char(i, i + 1));
            proof {
                assert(gt.subrange(i as int, i + 1) =~= seq![gt[i as int]]);
                assert(key_scan(gt, i as int).0 == seq![gt[i as int]] + key_scan(gt, i + 1).0);
                assert(key0 + (seq![gt[i as int]] + key_scan(gt, i + 1).0) =~= (key0
                    + seq![gt[i as int]]) + key_scan(gt, i + 1).0);
            }
            i = i + 1;
        }
    }
    (key, i)
}

/// What handling one placeholder yields: text to emit and the position to
/// resume at, or an error, or fuel exhaustion.
enum StepResult {
    Emit(String, usize),
    Fail(StringTemplaterError),
    Spent,
}

/// Handles the placeholder that opens at position `i` (`t[i] == t[i+1] == '{'`):
/// parses its shape, resolves it against `data`, and — for the `{{{...}}}`
/// form — renders the resolved value as a nested template.
fn placeholder_step(
    template: &str,
    n: usize,
    data: &FlatMap,
    option: &StringTemplaterOptions,
    fuel: u64,
    i: usize,
) -> (r: StepResult)
    requires
        n == template@.len(),
        i + 1 < n,
        template@[i as int] == '{',
        template@[i + 1] == '{',
    ensures
        match r {
            StepResult::Emit(s, j) => i < j <= n && scan(
                template@,
                data@,
                option@,
                fuel as nat,
                i as int,
            ) == prepend(s@, scan(template@, data@, option@, fuel as nat, j as int)),
            StepResult::Fail(e) => scan(template@, data@, option@, fuel as nat, i as int)
                == Outcome::Failed(e@),
            StepResult::Spent => scan(template@, data@, option@, fuel as nat, i as int)
                == Outcome::Spent,
        },
    decreases fuel, 0int,
{
    let ghost gt = template@;
    let ghost gm = data@;
    let ghost go = option@;
    let ghost gf = fuel as nat;
    let ghost sh = placeholder_shape(gt, i + 2);

    let p = i + 2;
    let apply = p < n && template.get_char(p) == '{';
    let p1 = if apply {
        p + 1
    } else {
        p
    };

    // The run of `*` asking for mirror indirection.
    proof {
        lemma_run_len_bounds(gt, p1 as int, '*');
    }
    let mut sp: usize = p1;
    loop
        invariant
            gt == template@,
            n == gt.len(),
            p1 <= sp <= n,
            run_len(gt, p1 as int, '*') == (sp - p1) + run_len(gt, sp as int, '*'),
        ensures
            p1 <= sp <= n,
            run_len(gt, p1 as int, '*') == sp - p1,
        decreases n - sp,
    {
        if sp >= n {
            break;
        }
        if template.get_char(sp) != '*' {
            break;
        }
        proof {
            assert(run_len(gt, sp as int, '*') == 1 + run_len(gt, sp + 1, '*'));
        }
        sp = sp + 1;
    }
    let stars = sp - p1;

    let (key, q) = read_key(template, n, sp);

    // The run of `}` that closes the placeholder.
    proof {
        lemma_run_len_bounds(gt, q as int, '}');
    }
    let mut cq: usize = q;
    loop
        invariant
            gt == template@,
            n == gt.len(),
            q <= cq <= n,
            run_len(gt, q as int, '}') == (cq - q) + run_len(gt, cq as int, '}'),
        ensures
            q <= cq <= n,
            run_len(gt, q as int, '}') == cq - q,
        decreases n - cq,
    {
        if cq >= n {
            break;
        }
        if template.get_char(cq) != '}' {
            break;
        }
        proof {
            assert(run_len(gt, cq as int, '}') == 1 + run_len(gt, cq + 1, '}'));
        }
        cq = cq + 1;
    }
    let closes = cq - q;

    proof {
        assert(sh.apply_template == apply);
        assert(sh.stars == stars as nat);
        assert(sh.key == key@);
        assert(sh.key_end == q as int);
        assert(required_closes(sh) == if apply { 3nat } else { 2nat });
        assert(run_len(gt, sh.key_end, '}') == closes as nat);
    }

    let req: usize = if apply {
        3
    } else {
        2
    };
    if closes < req {
        let e = missing_bracket_error(req - closes, &key);
        return StepResult::Fail(e);
    }
    let j = q + req;

    match data.get(&key) {
        Option::None => {
            if !option.safe_parse {
                let e = unknown_field_error(&key);
                return StepResult::Fail(e);
            }
            let ghost chunk = missing_key_output(go, key@);
            let mut piece = String::new();
            if option.display_missing_keys {
                let miss = render_missing_key(option, &key);
                piece.append(miss.as_str());
            }
            proof {
                assert(piece@ =~= chunk);
                assert(scan(gt, gm, go, gf, i as int) == prepend(
                    chunk,
                    scan(gt, gm, go, gf, j as int),
                ));
            }
            StepResult::Emit(piece, j)
        },
        Option::Some(v0) => {
            let ghost chain0 = mirror_chain(gm, v0@, stars as nat);
            let mut cur: String = v0.clone();
            let mut count: usize = stars;
            let mut broken = false;
            loop
                invariant_except_break
                    !broken,
                    chain0 == mirror_chain(gm, cur@, count as nat),
                invariant
                    gm == data@,
                    count <= stars,
                ensures
                    count <= stars,
                    broken ==> chain0 == (ChainResult::Broken {
                        missing: cur@,
                        remaining: count as nat,
                    }),
                    !broken ==> count == 0 && chain0 == ChainResult::Reached(cur@),
                decreases count,
            {
                if count == 0 {
                    break;
                }
                match data.get(&cur) {
                    Option::Some(v) => {
                        proof {
                            assert(mirror_chain(gm, cur@, count as nat) == mirror_chain(
                                gm,
                                v@,
                                (count - 1) as nat,
                            ));
                        }
                        cur = v.clone();
                        count = count - 1;
                    },
                    Option::None => {
                        broken = true;
                        break;
                    },
                }
            }
            if broken {
                if !option.safe_parse {
                    let e = unknown_field_error(&cur);
                    return StepResult::Fail(e);
                }
                let ghost miss_chunk = missing_key_output(go, cur@);
                let ghost chunk = repeat_text(miss_chunk, count as nat);
                let mut piece = String::new();
                if option.display_missing_keys {
                    let miss = render_missing_key(option, &cur);
                    let mut k: usize = 0;
                    while k < count
                        invariant
                            k <= count,
                            miss@ == miss_chunk,
                            piece@ == repeat_text(miss_chunk, k as nat),
                        decreases count - k,
                    {
                        piece.append(miss.as_str());
                        k = k + 1;
                    }
                } else {
                    proof {
                        lemma_repeat_text_empty(count as nat);
                    }
                }
                proof {
                    assert(piece@ == chunk);
                    assert(scan(gt, gm, go, gf, i as int) == prepend(
                        chunk,
                        scan(gt, gm, go, gf, j as int),
                    ));
                }
                StepResult::Emit(piece, j)
            } else {
                if apply {
                    if fuel == 0 {
                        proof {
                            assert(scan(gt, gm, go, gf, i as int) == Outcome::Spent);
                        }
                        return StepResult::Spent;
                    }
                    let sub = generate_rec(cur.as_str(), data, option, fuel - 1);
                    match sub {
                        GenOutcome::Finished(s) => {
                            proof {
                                assert(scan(gt, gm, go, gf, i as int) == prepend(
                                    s@,
                                    scan(gt, gm, go, gf, j as int),
                                ));
                            }
                            StepResult::Emit(s, j)
                        },
                        GenOutcome::Failed(e) => {
                            proof {
                                assert(scan(gt, gm, go, gf, i as int) == Outcome::Failed(e@));
                            }
                            StepResult::Fail(e)
                        },
                        GenOutcome::Spent => {
                            proof {
                                assert(scan(gt, gm, go, gf, i as int) == Outcome::Spent);
                            }
                            StepResult::Spent
                        },
                    }
                } else {
                    proof {
                        assert(scan(gt, gm, go, gf, i as int) == prepend(
                            cur@,
                            scan(gt, gm, go, gf, j as int),
                        ));
                    }
                    StepResult::Emit(cur, j)
                }
            }
        },
    }
}

/// One engine pass over `template`, allowed to nest `fuel` recursive
/// expansions: returns exactly what the spec-level scan at that fuel yields.
fn generate_rec(template: &str, data: &FlatMap, option: &StringTemplaterOptions, fuel: u64) -> (r:
    GenOutcome)
    ensures
        r@ == scan(template@, data@, option@, fuel as nat, 0),
    decreases fuel, 1int,
{
    let ghost gt = template@;
    let ghost gm = data@;
    let ghost go = option@;
    let ghost gf = fuel as nat;
    let n = template.unicode_len();
    let mut out = String::new();
    let mut i: usize = 0;
    while i < n
        invariant
            gt == template@,
            gm == data@,
            go == option@,
            gf == fuel as nat,
            n == gt.len(),
            i <= n,
            scan(gt, gm, go, gf, 0) == prepend(out@, scan(gt, gm, go, gf, i as int)),
        decreases n - i,
    {
        let ghost out0 = out@;
        let c = template.get_char(i);
        if c == '\\' {
            let mut escaped = false;
            if i + 1 < n {
                let c2 = template.get_char(i + 1);
                if c2 == '{' || c2 == '}' || c2 == '\\' {
                    escaped = true;
                    out.append(template.substring_char(i + 1, i + 2));
                    proof {
                        assert(gt.subrange(i + 1, i + 2) =~= seq![gt[i + 1]]);
                        assert(scan(gt, gm, go, gf, i as int) == prepend(
                            seq![gt[i + 1]],
                            scan(gt, gm, go, gf, i + 2),
                        ));
                        lemma_prepend_prepend(out0, seq![gt[i + 1]], scan(gt, gm, go, gf, i + 2));
                    }
                    i = i + 2;
                }
            }
            if !escaped {
                out.append("\\");
                proof {
                    reveal_strlit("\\");
                    assert("\\"@ =~= seq!['\\']);
                    assert(scan(gt, gm, go, gf, i as int) == prepend(
                        seq!['\\'],
                        scan(gt, gm, go, gf, i + 1),
                    ));
                    lemma_prepend_prepend(out0, seq!['\\'], scan(gt, gm, go, gf, i + 1));
                }
                i = i + 1;
            }
        } else if c == '{' && i + 1 < n && template.get_char(i + 1) == '{' {
            match placeholder_step(template, n, data, option, fuel, i) {
                StepResult::Emit(s, j) => {
                    out.append(s.as_str());
                    proof {
                        lemma_prepend_prepend(out0, s@, scan(gt, gm, go, gf, j as int));
                    }
                    i = j;
                },
                StepResult::Fail(e) => {
                    proof {
                        assert(prepend(out0, Outcome::Failed(e@)) == Outcome::Failed(e@));
                    }
                    return GenOutcome::Failed(e);
                },
                StepResult::Spent => {
                    proof {
                        assert(prepend(out0, Outcome::Spent) == Outcome::Spent);
                    }
                    return GenOutcome::Spent;
                },
            }
        } else {
            out.append(template.substring_char(i, i + 1));
            proof {
                assert(gt.subrange(i as int, i + 1) =~= seq![gt[i as int]]);
                assert(scan(gt, gm, go, gf, i as int) == prepend(
                    seq![gt[i as int]],
                    scan(gt, gm, go, gf, i + 1),
                ));
                lemma_prepend_prepend(out0, seq![gt[i as int]], scan(gt, gm, go, gf, i + 1));
            }
            i = i + 1;
        }
    }
    proof {
        assert(scan(gt, gm, go, gf, i as int) == Outcome::Done(Seq::<char>::empty()));
        assert(out@ + Seq::<char>::empty() =~= out@);
    }
    GenOutcome::Finished(out)
}

/// Renders `template_str` against `data` under `option`.
///
/// On success the output is the one meaning the template has under these
/// options; on failure the error is the one meaning as well, except for
/// `RecursionLimit`, which reports that expansion still nests deeper than
/// `u64::MAX` levels — the depth guard of the engine.
pub fn generate_with_options(
    template_str: &str,
    data: &FlatMap,
    option: &StringTemplaterOptions,
) -> (r: Result<String, StringTemplaterError>)
    ensures
        match r {
            Result::Ok(s) => generates(template_str@, data@, option@, Outcome::Done(s@)),
            Result::Err(e) => (e@ == ErrorView::RecursionLimit && scan(
                template_str@,
                data@,
                option@,
                u64::MAX as nat,
                0,
            ) is Spent) || generates(template_str@, data@, option@, Outcome::Failed(e@)),
        },
{
    match generate_rec(template_str, data, option, u64::MAX) {
        GenOutcome::Finished(s) => {
            proof {
                let f = u64::MAX as nat;
                assert(scan(template_str@, data@, option@, f, 0) == Outcome::Done(s@));
            }
            Result::Ok(s)
        },
        GenOutcome::Failed(e) => {
            proof {
                let f = u64::MAX as nat;
                assert(scan(template_str@, data@, option@, f, 0) == Outcome::Failed(e@));
            }
            Result::Err(e)
        },
        GenOutcome::Spent => Result::Err(StringTemplaterError::RecursionLimit),
    }
}

} // verus!
