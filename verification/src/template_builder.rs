//! A convenience builder: accumulates key/value pairs and option toggles,
//! then delegates to the engine.

use vstd::prelude::*;

use crate::errors::{ErrorView, StringTemplaterError};
use crate::flat_map::FlatMap;
use crate::generate_with_options::generate_with_options;
use crate::options::{default_options, OptionsView, OverrideMessage, StringTemplaterOptions};
use crate::scanner::{generates, scan, Outcome};
use crate::structured::{flat_of, flatten, StructuredValue};

verus! {

/// Wraps a flat map and an options value, exposing setters and a `build`
/// call that renders a template against what was accumulated.
pub struct TemplateBuilder {
    template_values: FlatMap,
    options: StringTemplaterOptions,
}

impl TemplateBuilder {
    /// The accumulated key/value pairs.
    pub closed spec fn data_view(self) -> Map<Seq<char>, Seq<char>> {
        self.template_values@
    }

    /// The accumulated options.
    pub closed spec fn options_view(self) -> OptionsView {
        self.options@
    }

    /// An empty builder with the default options.
    pub fn new() -> (r: TemplateBuilder)
        ensures
            r.data_view() == Map::<Seq<char>, Seq<char>>::empty(),
            r.options_view() == default_options(),
    {
        TemplateBuilder {
            template_values: FlatMap::new(),
            options: StringTemplaterOptions {
                safe_parse: false,
                display_missing_keys: false,
                override_missing_keys: Option::None,
            },
        }
    }

    /// Insert a key / value for the template to use.
    pub fn insert(&mut self, key: &str, value: &str)
        ensures
            final(self).data_view() == old(self).data_view().insert(key@, value@),
            final(self).options_view() == old(self).options_view(),
    {
        self.template_values.insert(key, value);
    }

    /// Insert a collection of key / value for the template to use.
    pub fn insert_hashmap(&mut self, data: &FlatMap)
        ensures
            final(self).data_view() == old(self).data_view().union_prefer_right(data@),
            final(self).options_view() == old(self).options_view(),
    {
        self.template_values.insert_all(data);
    }

    /// Insert every leaf of a structured value, keyed by its path.
    /// This method can fail while parsing and let you handle the error.
    pub fn insert_struct(&mut self, data: &StructuredValue) -> (r: Result<
        (),
        StringTemplaterError,
    >)
        ensures
            r is Ok,
            final(self).data_view() == old(self).data_view().union_prefer_right(
                flat_of(*data, Seq::<char>::empty()),
            ),
            final(self).options_view() == old(self).options_view(),
    {
        let map = flatten(data);
        self.template_values.insert_all(&map);
        Result::Ok(())
    }

    /// Insert every leaf of a structured value, keyed by its path.
    /// This method either inserts datas if it succeed or do nothing.
    pub fn insert_safe_struct(&mut self, data: &StructuredValue)
        ensures
            final(self).data_view() == old(self).data_view().union_prefer_right(
                flat_of(*data, Seq::<char>::empty()),
            ),
            final(self).options_view() == old(self).options_view(),
    {
        let map = flatten(data);
        self.template_values.insert_all(&map);
    }

    /// Display the missing key fields.
    pub fn display_missing_keys(&mut self)
        ensures
            final(self).data_view() == old(self).data_view(),
            final(self).options_view() == (OptionsView {
                display_missing_keys: true,
                ..old(self).options_view()
            }),
    {
        self.options.display_missing_keys = true;
    }

    /// Hide missing key fields.
    pub fn hide_missing_keys(&mut self)
        ensures
            final(self).data_view() == old(self).data_view(),
            final(self).options_view() == (OptionsView {
                display_missing_keys: false,
                ..old(self).options_view()
            }),
    {
        self.options.display_missing_keys = false;
    }

    /// Override the missing key fields using a specific frame.
    pub fn override_missing_keys_message(&mut self, override_missing_keys: OverrideMessage)
        ensures
            final(self).data_view() == old(self).data_view(),
            final(self).options_view() == (OptionsView {
                override_missing_keys: Option::Some(override_missing_keys@),
                ..old(self).options_view()
            }),
    {
        self.options.override_missing_keys = Option::Some(override_missing_keys);
    }

    /// Safe parse allow you to ignore errors comming from missing keys.
    pub fn set_safe_parse(&mut self, safe_parse: bool)
        ensures
            final(self).data_view() == old(self).data_view(),
            final(self).options_view() == (OptionsView {
                safe_parse: safe_parse,
                ..old(self).options_view()
            }),
    {
        self.options.safe_parse = safe_parse;
    }

    /// Build the chosen template using the values of the builder.
    pub fn build(&self, template_str: &str) -> (r: Result<String, StringTemplaterError>)
        ensures
            match r {
                Result::Ok(s) => generates(
                    template_str@,
                    self.data_view(),
                    self.options_view(),
                    Outcome::Done(s@),
                ),
                Result::Err(e) => (e@ == ErrorView::RecursionLimit && scan(
                    template_str@,
                    self.data_view(),
                    self.options_view(),
                    u64::MAX as nat,
                    0,
                ) is Spent) || generates(
                    template_str@,
                    self.data_view(),
                    self.options_view(),
                    Outcome::Failed(e@),
                ),
            },
    {
        generate_with_options(template_str, &self.template_values, &self.options)
    }
}

impl Default for TemplateBuilder {
    /// An empty builder with the default options.
    fn default() -> (r: Self)
        ensures
            r.data_view() == Map::<Seq<char>, Seq<char>>::empty(),
            r.options_view() == default_options(),
    {
        TemplateBuilder::new()
    }
}

} // verus!
