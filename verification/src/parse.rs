//! Rendering straight from a structured value: flatten, then generate.

use vstd::prelude::*;

use crate::errors::{ErrorView, StringTemplaterError};
use crate::generate::generate;
use crate::options::default_options;
use crate::scanner::{generates, scan, Outcome};
use crate::structured::{flat_of, flatten, StructuredValue};

verus! {

/// Flattens `data` and renders `template_str` against it under the default
/// options, so that a placeholder key is a dot-joined path into `data`.
pub fn parse(template_str: &str, data: &StructuredValue) -> (r: Result<
    String,
    StringTemplaterError,
>)
    ensures
        match r {
            Result::Ok(s) => generates(
                template_str@,
                flat_of(*data, Seq::<char>::empty()),
                default_options(),
                Outcome::Done(s@),
            ),
            Result::Err(e) => (e@ == ErrorView::RecursionLimit && scan(
                template_str@,
                flat_of(*data, Seq::<char>::empty()),
                default_options(),
                u64::MAX as nat,
                0,
            ) is Spent) || generates(
                template_str@,
                flat_of(*data, Seq::<char>::empty()),
                default_options(),
                Outcome::Failed(e@),
            ),
        },
{
    let map = flatten(data);
    generate(template_str, &map)
}

} // verus!
