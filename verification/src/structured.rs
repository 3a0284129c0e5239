//! The tree shape that the flattener consumes, and the flattener itself: a
//! depth-first walk that turns a structured value into a flat map from
//! dot-joined paths to the text of the leaves.
//!
//! The conversion of an application-defined typed value into this shape is
//! the business of an external serialization library and stays outside the
//! library; numbers therefore arrive here already carrying their canonical
//! text.

use vstd::prelude::*;
use vstd::string::StringExecFns;

use crate::flat_map::FlatMap;

verus! {

/// A structured value: a leaf, an array, or an object with ordered fields.
#[derive(Debug)]
pub enum StructuredValue {
    Null,
    Bool(bool),
    /// A number, carried as its canonical decimal text.
    Number(String),
    Text(String),
    Array(Vec<StructuredValue>),
    Object(Vec<(String, StructuredValue)>),
}

/// The text a leaf renders to: strings keep their content, the other
/// scalars their canonical textual form.
pub open spec fn leaf_text(v: StructuredValue) -> Seq<char> {
    match v {
        StructuredValue::Null => "null"@,
        StructuredValue::Bool(b) => if b {
            "true"@
        } else {
            "false"@
        },
        StructuredValue::Number(s) => s@,
        StructuredValue::Text(s) => s@,
        _ => Seq::empty(),
    }
}

/// The decimal digit character for `n < 10`.
pub open spec fn dec_digit(n: nat) -> char {
    if n == 0 {
        '0'
    } else if n == 1 {
        '1'
    } else if n == 2 {
        '2'
    } else if n == 3 {
        '3'
    } else if n == 4 {
        '4'
    } else if n == 5 {
        '5'
    } else if n == 6 {
        '6'
    } else if n == 7 {
        '7'
    } else if n == 8 {
        '8'
    } else {
        '9'
    }
}

/// The decimal text of `n`, without a sign and without leading zeros.
pub open spec fn dec_str(n: nat) -> Seq<char>
    decreases n,
{
    if n < 10 {
        seq![dec_digit(n)]
    } else {
        dec_str(n / 10) + seq![dec_digit(n % 10)]
    }
}

/// The path of a field `name` below `prefix`.
pub open spec fn object_child_prefix(prefix: Seq<char>, name: Seq<char>) -> Seq<char> {
    if prefix.len() == 0 {
        name
    } else {
        prefix + "."@ + name
    }
}

/// The path of the item at `idx` below `prefix`.
pub open spec fn array_child_prefix(prefix: Seq<char>, idx: nat) -> Seq<char> {
    prefix + "."@ + dec_str(idx)
}

/// The flat map of a structured value rooted at `prefix`: one entry per
/// leaf, keyed by its path; when two leaves share a path, the later one in
/// depth-first, left-to-right order wins.
pub open spec fn flat_of(v: StructuredValue, prefix: Seq<char>) -> Map<Seq<char>, Seq<char>>
    decreases v,
{
    match v {
        StructuredValue::Array(items) => flat_of_items(items@, prefix),
        StructuredValue::Object(fields) => flat_of_fields(fields@, prefix),
        _ => Map::empty().insert(prefix, leaf_text(v)),
    }
}

pub open spec fn flat_of_items(items: Seq<StructuredValue>, prefix: Seq<char>) -> Map<
    Seq<char>,
    Seq<char>,
>
    decreases items,
{
    if items.len() == 0 {
        Map::empty()
    } else {
        flat_of_items(items.drop_last(), prefix).union_prefer_right(
            flat_of(items.last(), array_child_prefix(prefix, (items.len() - 1) as nat)),
        )
    }
}

pub open spec fn flat_of_fields(fields: Seq<(String, StructuredValue)>, prefix: Seq<char>) -> Map<
    Seq<char>,
    Seq<char>,
>
    decreases fields,
{
    if fields.len() == 0 {
        Map::empty()
    } else {
        flat_of_fields(fields.drop_last(), prefix).union_prefer_right(
            flat_of(fields.last().1, object_child_prefix(prefix, fields.last().0@)),
        )
    }
}

/// Taking the union one map at a time, left to right, is taking it at once.
proof fn lemma_union_assoc(
    a: Map<Seq<char>, Seq<char>>,
    b: Map<Seq<char>, Seq<char>>,
    c: Map<Seq<char>, Seq<char>>,
)
    ensures
        a.union_prefer_right(b).union_prefer_right(c) == a.union_prefer_right(
            b.union_prefer_right(c),
        ),
{
    assert(a.union_prefer_right(b).union_prefer_right(c) =~= a.union_prefer_right(
        b.union_prefer_right(c),
    ));
}

/// The digit string for `d < 10`.
fn digit_str(d: usize) -> (r: &'static str)
    requires
        d < 10,
    ensures
        r@ == seq![dec_digit(d as nat)],
{
    proof {
        reveal_strlit("0");
        reveal_strlit("1");
        reveal_strlit("2");
        reveal_strlit("3");
        reveal_strlit("4");
        reveal_strlit("5");
        reveal_strlit("6");
        reveal_strlit("7");
        reveal_strlit("8");
        reveal_strlit("9");
    }
    let r = if d == 0 {
        "0"
    } else if d == 1 {
        "1"
    } else if d == 2 {
        "2"
    } else if d == 3 {
        "3"
    } else if d == 4 {
        "4"
    } else if d == 5 {
        "5"
    } else if d == 6 {
        "6"
    } else if d == 7 {
        "7"
    } else if d == 8 {
        "8"
    } else {
        "9"
    };
    proof {
        assert(r@ =~= seq![dec_digit(d as nat)]);
    }
    r
}

/// Appends the decimal text of `n` to `out`.
fn push_dec(out: &mut String, n: usize)
    ensures
        final(out)@ == old(out)@ + dec_str(n as nat),
    decreases n,
{
    if n >= 10 {
        push_dec(out, n / 10);
        out.append(digit_str(n % 10));
        proof {
            assert(dec_str(n as nat) == dec_str((n as nat) / 10) + seq![dec_digit((n as nat) % 10)]);
            assert(old(out)@ + (dec_str((n as nat) / 10) + seq![dec_digit((n as nat) % 10)]) =~= (
            old(out)@ + dec_str((n as nat) / 10)) + seq![dec_digit((n as nat) % 10)]);
        }
    } else {
        out.append(digit_str(n));
    }
}

/// Flattens `value`: one entry per leaf, keyed by the dot-joined path of
/// object field names and 0-based array indices that leads to it.
pub fn flatten(value: &StructuredValue) -> (r: FlatMap)
    ensures
        r@ == flat_of(*value, Seq::<char>::empty()),
{
    let mut map = FlatMap::new();
    let prefix = String::new();
    flatten_into(value, &prefix, &mut map);
    proof {
        assert(Map::<Seq<char>, Seq<char>>::empty().union_prefer_right(
            flat_of(*value, Seq::<char>::empty()),
        ) =~= flat_of(*value, Seq::<char>::empty()));
    }
    map
}

/// Writes every leaf of `value` below `prefix` into `out`, later leaves
/// winning over earlier ones and over what `out` already held.
fn flatten_into(value: &StructuredValue, prefix: &String, out: &mut FlatMap)
    ensures
        final(out)@ == old(out)@.union_prefer_right(flat_of(*value, prefix@)),
    decreases *value,
{
    match value {
        StructuredValue::Null => {
            out.insert(prefix.as_str(), "null");
            proof {
                assert(final(out)@ =~= old(out)@.union_prefer_right(flat_of(*value, prefix@)));
            }
        },
        StructuredValue::Bool(b) => {
            out.insert(prefix.as_str(), if *b {
                "true"
            } else {
                "false"
            });
            proof {
                assert(final(out)@ =~= old(out)@.union_prefer_right(flat_of(*value, prefix@)));
            }
        },
        StructuredValue::Number(s) => {
            out.insert(prefix.as_str(), s.as_str());
            proof {
                assert(final(out)@ =~= old(out)@.union_prefer_right(flat_of(*value, prefix@)));
            }
        },
        StructuredValue::Text(s) => {
            out.insert(prefix.as_str(), s.as_str());
            proof {
                assert(final(out)@ =~= old(out)@.union_prefer_right(flat_of(*value, prefix@)));
            }
        },
        StructuredValue::Array(items) => {
            let n = items.len();
            let mut k: usize = 0;
            while k < n
                invariant
                    n == items@.len(),
                    k <= n,
                    value == StructuredValue::Array(*items),
                    out@ == old(out)@.union_prefer_right(
                        flat_of_items(items@.take(k as int), prefix@),
                    ),
                decreases n - k,
            {
                let mut child_prefix = String::from_str(prefix.as_str());
                child_prefix.append(".");
                push_dec(&mut child_prefix, k);
                proof {
                    assert(child_prefix@ == array_child_prefix(prefix@, k as nat));
                }
                proof {
                    assert(*items == value->Array_0);
                    assert(decreases_to!(*value => value->Array_0));
                    assert(decreases_to!(value->Array_0 => value->Array_0@));
                    assert(decreases_to!(value->Array_0@ => value->Array_0@[k as int]));
                }
                flatten_into(&items[k], &child_prefix, out);
                proof {
                    let taken = items@.take(k as int);
                    let next = items@.take(k as int + 1);
                    assert(next.drop_last() =~= taken);
                    assert(next.last() == items@[k as int]);
                    assert(flat_of_items(next, prefix@) == flat_of_items(
                        taken,
                        prefix@,
                    ).union_prefer_right(
                        flat_of(items@[k as int], array_child_prefix(prefix@, k as nat)),
                    ));
                    lemma_union_assoc(
                        old(out)@,
                        flat_of_items(taken, prefix@),
                        flat_of(items@[k as int], array_child_prefix(prefix@, k as nat)),
                    );
                }
                k = k + 1;
            }
            proof {
                assert(items@.take(n as int) =~= items@);
            }
        },
        StructuredValue::Object(fields) => {
            let n = fields.len();
            let mut k: usize = 0;
            while k < n
                invariant
                    n == fields@.len(),
                    k <= n,
                    value == StructuredValue::Object(*fields),
                    out@ == old(out)@.union_prefer_right(
                        flat_of_fields(fields@.take(k as int), prefix@),
                    ),
                decreases n - k,
            {
                let mut child_prefix: String;
                if prefix.as_str().is_empty() {
                    child_prefix = String::from_str(fields[k].0.as_str());
                } else {
                    child_prefix = String::from_str(prefix.as_str());
                    child_prefix.append(".");
                    child_prefix.append(fields[k].0.as_str());
                }
                proof {
                    assert(child_prefix@ == object_child_prefix(prefix@, fields@[k as int].0@));
                }
                proof {
                    assert(*fields == value->Object_0);
                    assert(decreases_to!(*value => value->Object_0));
                    assert(decreases_to!(value->Object_0 => value->Object_0@));
                    assert(decreases_to!(value->Object_0@ => value->Object_0@[k as int]));
                    assert(decreases_to!(value->Object_0@[k as int] => value->Object_0@[k as int].1));
                }
                flatten_into(&fields[k].1, &child_prefix, out);
                proof {
                    let taken = fields@.take(k as int);
                    let next = fields@.take(k as int + 1);
                    assert(next.drop_last() =~= taken);
                    assert(next.last() == fields@[k as int]);
                    assert(flat_of_fields(next, prefix@) == flat_of_fields(
                        taken,
                        prefix@,
                    ).union_prefer_right(
                        flat_of(
                            fields@[k as int].1,
                            object_child_prefix(prefix@, fields@[k as int].0@),
                        ),
                    ));
                    lemma_union_assoc(
                        old(out)@,
                        flat_of_fields(taken, prefix@),
                        flat_of(
                            fields@[k as int].1,
                            object_child_prefix(prefix@, fields@[k as int].0@),
                        ),
                    );
                }
                k = k + 1;
            }
            proof {
                assert(fields@.take(n as int) =~= fields@);
            }
        },
    }
}

} // verus!
