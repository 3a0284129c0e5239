//! Rendering straight from a structured value under explicit options.

use vstd::prelude::*;

use crate::errors::{ErrorView, StringTemplaterError};
use crate::generate_with_options::generate_with_options;
use crate::options::StringTemplaterOptions;
use crate::scanner::{generates, scan, Outcome};
use crate::structured::{flat_of, flatten, StructuredValue};

verus! {

/// Flattens `data` and renders `template_str` against it under `option`.
pub fn parse_with_options(
    template_str: &str,
    data: &StructuredValue,
    option: &StringTemplaterOptions,
) -> (r: Result<String, StringTemplaterError>)
    ensures
        match r {
            Result::Ok(s) => generates(
                template_str@,
                flat_of(*data, Seq::<char>::empty()),
                option@,
                Outcome::Done(s@),
            ),
            Result::Err(e) => (e@ == ErrorView::RecursionLimit && scan(
                template_str@,
                flat_of(*data, Seq::<char>::empty()),
                option@,
                u64::MAX as nat,
                0,
            ) is Spent) || generates(
                template_str@,
                flat_of(*data, Seq::<char>::empty()),
                option@,
                Outcome::Failed(e@),
            ),
        },
{
    let map = flatten(data);
    generate_with_options(template_str, &map, option)
}

} // verus!
