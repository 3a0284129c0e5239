//! Concrete scenarios for the engine: one per documented behaviour, plus the
//! edge cases of the micro-syntax.

use string_templater::{
    generate, generate_with_options, FlatMap, OverrideMessage, StringTemplaterError,
    StringTemplaterOptions,
};

#[test]
fn literal_template_passes_through() {
    let map = FlatMap::new();
    let result = generate("plain text, no braces at all.", &map).unwrap();
    assert_eq!(result, "plain text, no braces at all.");
}

#[test]
fn empty_template_yields_empty_output() {
    let map = FlatMap::new();
    assert_eq!(generate("", &map).unwrap(), "");
}

#[test]
fn escaped_placeholder_survives_missing_key() {
    let map = FlatMap::new();
    let result = generate("\\{{k}}", &map).unwrap();
    assert_eq!(result, "{{k}}");
}

#[test]
fn basic_substitution() {
    let mut map = FlatMap::new();
    map.insert("k", "v");
    assert_eq!(generate("{{k}}", &map).unwrap(), "v");
}

#[test]
fn missing_key_fails_by_default() {
    let map = FlatMap::new();
    let err = generate("{{missing}}", &map).unwrap_err();
    assert_eq!(
        err,
        StringTemplaterError::UnknownField(
            "The field `missing` does not exist in the hashmap.".to_string()
        )
    );
}

#[test]
fn recursive_expansion() {
    let mut map = FlatMap::new();
    map.insert("a", "{{b}}");
    map.insert("b", "x");
    assert_eq!(generate("{{{a}}}", &map).unwrap(), "x");
}

#[test]
fn mirror_single_level() {
    let mut map = FlatMap::new();
    map.insert("k", "age");
    map.insert("age", "35");
    assert_eq!(generate("{{*k}}", &map).unwrap(), "35");
}

#[test]
fn mirror_two_levels() {
    let mut map = FlatMap::new();
    map.insert("k", "k2");
    map.insert("k2", "age");
    map.insert("age", "35");
    assert_eq!(generate("{{**k}}", &map).unwrap(), "35");
}

#[test]
fn mirror_broken_deep_names_the_failing_key() {
    let mut map = FlatMap::new();
    map.insert("k", "a");
    map.insert("a", "b");
    let err = generate("{{**k}}", &map).unwrap_err();
    assert_eq!(
        err,
        StringTemplaterError::UnknownField("The field `b` does not exist in the hashmap.".to_string())
    );
}

#[test]
fn mirror_broken_chain_marks_every_remaining_lookup() {
    // A chain of two scheduled lookups that breaks on the first one leaves
    // one mark per scheduled lookup, both naming the key that failed.
    let mut map = FlatMap::new();
    map.insert("k", "k2");
    let options = StringTemplaterOptions {
        safe_parse: true,
        display_missing_keys: true,
        override_missing_keys: None,
    };
    let result = generate_with_options("{{**k}}", &map, &options).unwrap();
    assert_eq!(result, "[MISSING_KEY: `k2`][MISSING_KEY: `k2`]");
}

#[test]
fn tolerant_mode_displays_default_mark() {
    let map = FlatMap::new();
    let options = StringTemplaterOptions {
        safe_parse: true,
        display_missing_keys: true,
        override_missing_keys: None,
    };
    let result = generate_with_options("{{missing}}", &map, &options).unwrap();
    assert_eq!(result, "[MISSING_KEY: `missing`]");
}

#[test]
fn tolerant_mode_can_hide_missing_keys() {
    let map = FlatMap::new();
    let options = StringTemplaterOptions {
        safe_parse: true,
        display_missing_keys: false,
        override_missing_keys: None,
    };
    let result = generate_with_options("{{missing}}", &map, &options).unwrap();
    assert_eq!(result, "");
}

#[test]
fn tolerant_mode_uses_custom_frame() {
    let map = FlatMap::new();
    let options = StringTemplaterOptions {
        safe_parse: true,
        display_missing_keys: true,
        override_missing_keys: Some(OverrideMessage {
            prefix: "<missing ".to_string(),
            suffix: ">".to_string(),
        }),
    };
    let result = generate_with_options("{{missing}}", &map, &options).unwrap();
    assert_eq!(result, "<missing missing>");
}

#[test]
fn one_missing_bracket_is_reported() {
    let map = FlatMap::new();
    let err = generate("{{k}", &map).unwrap_err();
    assert_eq!(
        err,
        StringTemplaterError::MissingCurvyBracket(
            "Missing one curvy bracket `}` around `k`.".to_string()
        )
    );
}

#[test]
fn one_missing_bracket_in_recursive_form_is_reported() {
    let map = FlatMap::new();
    let err = generate("{{{k}}", &map).unwrap_err();
    assert_eq!(
        err,
        StringTemplaterError::MissingCurvyBracket(
            "Missing one curvy bracket `}` around `k`.".to_string()
        )
    );
}

#[test]
fn two_missing_brackets_are_reported() {
    let map = FlatMap::new();
    let err = generate("{{k", &map).unwrap_err();
    assert_eq!(
        err,
        StringTemplaterError::MissingCurvyBracket(
            "Missing two curvy bracket `}` around `k`.".to_string()
        )
    );
}

#[test]
fn three_missing_brackets_are_reported() {
    let map = FlatMap::new();
    let err = generate("{{{k", &map).unwrap_err();
    assert_eq!(
        err,
        StringTemplaterError::MissingCurvyBracket(
            "Missing three curvy bracket `}` around `k`.".to_string()
        )
    );
}

#[test]
fn lone_open_brace_is_literal() {
    let mut map = FlatMap::new();
    map.insert("k", "v");
    assert_eq!(generate("a{b", &map).unwrap(), "a{b");
    assert_eq!(generate("a{", &map).unwrap(), "a{");
}

#[test]
fn close_braces_are_literal() {
    let map = FlatMap::new();
    assert_eq!(generate("a}}b", &map).unwrap(), "a}}b");
}

#[test]
fn trailing_backslash_is_literal() {
    let map = FlatMap::new();
    assert_eq!(generate("tail\\", &map).unwrap(), "tail\\");
}

#[test]
fn backslash_before_ordinary_char_is_literal() {
    let map = FlatMap::new();
    assert_eq!(generate("a\\b", &map).unwrap(), "a\\b");
}

#[test]
fn empty_key_is_looked_up() {
    let mut map = FlatMap::new();
    map.insert("", "void");
    assert_eq!(generate("{{}}", &map).unwrap(), "void");
    let empty = FlatMap::new();
    let err = generate("{{}}", &empty).unwrap_err();
    assert_eq!(
        err,
        StringTemplaterError::UnknownField("The field `` does not exist in the hashmap.".to_string())
    );
}

#[test]
fn extra_close_braces_stay_in_output() {
    let mut map = FlatMap::new();
    map.insert("k", "v");
    assert_eq!(generate("{{k}}}", &map).unwrap(), "v}");
}

#[test]
fn escaped_star_in_key_disables_mirroring() {
    let mut map = FlatMap::new();
    map.insert("*k", "age");
    map.insert("age", "35");
    assert_eq!(generate("{{\\*k}}", &map).unwrap(), "age");
}

#[test]
fn later_insert_wins() {
    let mut map = FlatMap::new();
    map.insert("k", "first");
    map.insert("k", "second");
    assert_eq!(generate("{{k}}", &map).unwrap(), "second");
}

#[test]
fn flat_map_get_reports_content() {
    let mut map = FlatMap::new();
    map.insert("k", "v");
    assert_eq!(map.get(&"k".to_string()), Some(&"v".to_string()));
    assert_eq!(map.get(&"other".to_string()), None);
}
