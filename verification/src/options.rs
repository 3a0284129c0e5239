//! Configuration of the engine: tolerant mode, whether missing keys leave a
//! visible mark in the output, and the optional custom frame put around a
//! missing key's name.

use vstd::prelude::*;
use vstd::string::StringExecFns;

verus! {

/// A custom frame for the mark of a missing key: the mark is
/// `prefix + key + suffix`.
#[derive(Debug)]
pub struct OverrideMessage {
    pub prefix: String,
    pub suffix: String,
}

/// The mathematical shadow of `OverrideMessage`.
pub struct OverrideMessageView {
    pub prefix: Seq<char>,
    pub suffix: Seq<char>,
}

impl View for OverrideMessage {
    type V = OverrideMessageView;

    open spec fn view(&self) -> OverrideMessageView {
        OverrideMessageView { prefix: self.prefix@, suffix: self.suffix@ }
    }
}

/// Configuration threaded by reference through the engine; never mutated
/// during a scan, so every recursive expansion observes the same behaviour.
#[derive(Debug)]
pub struct StringTemplaterOptions {
    /// When true, a missing key no longer aborts the scan: it degrades to a
    /// mark in the output, or to nothing.
    pub safe_parse: bool,
    /// In tolerant mode, whether a missing key leaves a mark in the output.
    pub display_missing_keys: bool,
    /// The custom frame for that mark; when absent, the mark is
    /// `[MISSING_KEY: ` + the key in backquotes + `]`.
    pub override_missing_keys: Option<OverrideMessage>,
}

/// The mathematical shadow of `StringTemplaterOptions`.
pub struct OptionsView {
    pub safe_parse: bool,
    pub display_missing_keys: bool,
    pub override_missing_keys: Option<OverrideMessageView>,
}

impl View for StringTemplaterOptions {
    type V = OptionsView;

    open spec fn view(&self) -> OptionsView {
        OptionsView {
            safe_parse: self.safe_parse,
            display_missing_keys: self.display_missing_keys,
            override_missing_keys: match &self.override_missing_keys {
                Option::Some(m) => Option::Some(m@),
                Option::None => Option::None,
            },
        }
    }
}

/// The options that `generate` uses: strict mode, nothing displayed.
pub open spec fn default_options() -> OptionsView {
    OptionsView { safe_parse: false, display_missing_keys: false, override_missing_keys: Option::None }
}

impl Default for StringTemplaterOptions {
    /// Strict mode, nothing displayed, no custom frame.
    fn default() -> (r: Self)
        ensures
            r@ == default_options(),
    {
        StringTemplaterOptions {
            safe_parse: false,
            display_missing_keys: false,
            override_missing_keys: Option::None,
        }
    }
}

/// The mark written for a missing `key` when marks are displayed.
pub open spec fn missing_key_text(o: OptionsView, key: Seq<char>) -> Seq<char> {
    match o.override_missing_keys {
        Option::Some(m) => m.prefix + key + m.suffix,
        Option::None => "[MISSING_KEY: `"@ + key + "`]"@,
    }
}

/// What a missing `key` contributes to the output in tolerant mode: its mark,
/// or nothing.
pub open spec fn missing_key_output(o: OptionsView, key: Seq<char>) -> Seq<char> {
    if o.display_missing_keys {
        missing_key_text(o, key)
    } else {
        Seq::empty()
    }
}

/// Builds the mark for a missing `key` under `option`.
pub fn render_missing_key(option: &StringTemplaterOptions, key: &String) -> (r: String)
    ensures
        r@ == missing_key_text(option@, key@),
{
    match &option.override_missing_keys {
        Option::Some(m) => {
            let mut s = String::from_str(m.prefix.as_str());
            s.append(key.as_str());
            s.append(m.suffix.as_str());
            s
        },
        Option::None => {
            let mut s = String::from_str("[MISSING_KEY: `");
            s.append(key.as_str());
            s.append("`]");
            s
        },
    }
}

} // verus!
