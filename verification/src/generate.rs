//! The convenience form of the engine: strict mode, nothing displayed for a
//! missing key.

use vstd::prelude::*;

use crate::errors::{ErrorView, StringTemplaterError};
use crate::flat_map::FlatMap;
use crate::generate_with_options::generate_with_options;
use crate::options::{default_options, StringTemplaterOptions};
use crate::scanner::{generates, scan, Outcome};

verus! {

/// Renders `template_str` against `data` under the default options: a
/// missing key aborts with `UnknownField`.
///
/// On success the output is the one meaning the template has; on failure the
/// error is that meaning, except for `RecursionLimit`, which reports that
/// expansion still nests deeper than `u64::MAX` levels — the depth guard of
/// the engine.
pub fn generate(template_str: &str, data: &FlatMap) -> (r: Result<String, StringTemplaterError>)
    ensures
        match r {
            Result::Ok(s) => generates(template_str@, data@, default_options(), Outcome::Done(s@)),
            Result::Err(e) => (e@ == ErrorView::RecursionLimit && scan(
                template_str@,
                data@,
                default_options(),
                u64::MAX as nat,
                0,
            ) is Spent) || generates(template_str@, data@, default_options(), Outcome::Failed(e@)),
        },
{
    let option = StringTemplaterOptions::default();
    generate_with_options(template_str, data, &option)
}

} // verus!
