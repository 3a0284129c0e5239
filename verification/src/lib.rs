//! A small text-templating library: placeholders written `{{key}}` inside a
//! template string are replaced by values drawn from a flat key/value map,
//! with escaping, recursive expansion (`{{{key}}}`), mirror indirection
//! (`{{*key}}`) and a configurable treatment of missing keys.

pub mod errors;
pub mod flat_map;
pub mod generate;
pub mod generate_with_options;
pub mod laws;
pub mod options;
pub mod parse;
pub mod parse_to_hashmap;
pub mod parse_with_options;
pub mod scanner;
pub mod structured;
pub mod template_builder;

pub use crate::errors::StringTemplaterError;
pub use crate::flat_map::FlatMap;
pub use crate::generate::generate;
pub use crate::generate_with_options::generate_with_options;
pub use crate::options::{OverrideMessage, StringTemplaterOptions};
pub use crate::parse::parse;
pub use crate::parse_to_hashmap::parse_to_hashmap;
pub use crate::parse_with_options::parse_with_options;
pub use crate::structured::{flatten, StructuredValue};
pub use crate::template_builder::TemplateBuilder;
