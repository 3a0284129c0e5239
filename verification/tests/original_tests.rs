use string_templater::{
    generate, parse, parse_with_options, FlatMap, OverrideMessage, StringTemplaterError,
    StringTemplaterOptions, StructuredValue,
};

fn text(s: &str) -> StructuredValue {
    StructuredValue::Text(s.to_string())
}

fn number(s: &str) -> StructuredValue {
    StructuredValue::Number(s.to_string())
}

fn object(fields: Vec<(&str, StructuredValue)>) -> StructuredValue {
    StructuredValue::Object(fields.into_iter().map(|(k, v)| (k.to_string(), v)).collect())
}

#[test]
fn test_write_field() {
    let mut a = FlatMap::new();
    a.insert("name", "Doe");
    a.insert("surname", "Doey");

    let template_str = "Hello {{name}}! Or should I call you {{surname}}?";
    let result = generate(template_str, &a).unwrap();
    assert_eq!(result, "Hello Doe! Or should I call you Doey?".to_string())
}

#[test]
fn test_escape_write_field() {
    let mut a = FlatMap::new();
    a.insert("name", "Doe");

    let template_str = "Hello \\{{name}}!";
    let result = generate(template_str, &a).unwrap();
    assert_eq!(result, "Hello {{name}}!".to_string())
}

#[test]
fn test_escape_write_field_2() {
    let mut a = FlatMap::new();
    a.insert("name", "Doe");

    let template_str = "Hello {\\{name}}!";
    let result = generate(template_str, &a).unwrap();
    assert_eq!(result, "Hello {{name}}!".to_string())
}

#[test]
fn test_antislash_write_field() {
    let mut a = FlatMap::new();
    a.insert("name", "Doe");

    let template_str = "Hello \\\\{{name}}!";
    let result = generate(template_str, &a).unwrap();
    assert_eq!(result, "Hello \\Doe!".to_string())
}

#[test]
fn test_write_field_failed_on_missing_curvy_bracket_1() {
    let mut a = FlatMap::new();
    a.insert("name", "Doe");
    a.insert("surname", "Doey");

    let template_str = "Hello {{name}!";
    let result = match generate(template_str, &a) {
        Ok(_) => StringTemplaterError::SerializeError("".to_string()),
        Err(err) => err,
    };
    assert_eq!(
        result,
        StringTemplaterError::MissingCurvyBracket(
            "Missing one curvy bracket `}` around `name`.".to_string()
        )
    )
}

#[test]
fn test_write_field_failed_on_missing_curvy_bracket_2() {
    let mut a = FlatMap::new();
    a.insert("name", "Doe");
    a.insert("surname", "Doey");

    let template_str = "Hello {{name! How're you today?";
    let result = match generate(template_str, &a) {
        Ok(_) => StringTemplaterError::SerializeError("".to_string()),
        Err(err) => err,
    };
    assert_eq!(
        result,
        StringTemplaterError::MissingCurvyBracket(
            "Missing two curvy bracket `}` around `name! How're you today?`.".to_string()
        )
    )
}

#[test]
fn test_write_field_failed_on_unknown_field() {
    let mut a = FlatMap::new();
    a.insert("name", "Doe");
    a.insert("surname", "Doey");

    let template_str = "Hello {{namey}}!";
    let result = match generate(template_str, &a) {
        Ok(_) => StringTemplaterError::SerializeError("".to_string()),
        Err(err) => err,
    };
    assert_eq!(
        result,
        StringTemplaterError::UnknownField(
            "The field `namey` does not exist in the hashmap.".to_string()
        )
    )
}

#[test]
fn test_serialize_and_write_field() {
    let a = object(vec![
        ("name", text("John")),
        ("son", object(vec![("name", text("Doe")), ("age", number("20"))])),
    ]);
    let template_str = "Hello {{name}}! Your son's name is {{son.name}} and he is \\\\{{son.age}} years old. Welcome to the \\{Rust\\} world.";
    let result = parse(template_str, &a).unwrap();
    assert_eq!(result, "Hello John! Your son's name is Doe and he is \\20 years old. Welcome to the {Rust} world.".to_string())
}

#[test]
fn test_serialize_and_write_nested_field() {
    let a = object(vec![
        ("name", text("Roger")),
        (
            "child",
            object(vec![
                ("name", text("Betty")),
                (
                    "child",
                    object(vec![("name", text("Kenny")), ("child", StructuredValue::Null)]),
                ),
            ]),
        ),
    ]);
    let template_str = "Hello {{name}}! Is {{child.name}} your child? So your grandchild must be {{child.child.name}}.";
    let result = parse(template_str, &a).unwrap();
    assert_eq!(
        result,
        "Hello Roger! Is Betty your child? So your grandchild must be Kenny.".to_string()
    )
}

#[test]
fn test_serialize_and_write_nested_field_failed_on_none() {
    let a = object(vec![
        ("name", text("Roger")),
        (
            "child",
            object(vec![("name", text("Betty")), ("child", StructuredValue::Null)]),
        ),
    ]);
    let template_str = "Hello {{name}}! Is {{child.name}} your child? So your grandchild must be {{child.child.name}}.";
    let result = match parse(template_str, &a) {
        Ok(_) => StringTemplaterError::MissingCurvyBracket("".to_string()),
        Err(err) => err,
    };
    assert_eq!(
        result,
        StringTemplaterError::UnknownField(
            "The field `child.child.name` does not exist in the hashmap.".to_string()
        )
    )
}

#[test]
fn test_serialize_and_write_nested_field_mirror() {
    let a = object(vec![
        ("name", text("Doe")),
        ("age", number("35")),
        ("key_name", text("age")),
    ]);
    let template_str = "Hello {{name}}! Is it true that you're {{*key_name}} years old?";
    let result = parse(template_str, &a).unwrap();
    assert_eq!(
        result,
        "Hello Doe! Is it true that you're 35 years old?".to_string()
    )
}

#[test]
fn test_serialize_and_write_nested_field_multi_mirrors() {
    let a = object(vec![
        ("name", text("key_name")),
        ("age", number("35")),
        ("key_name", text("age")),
    ]);
    let template_str = "Your key is named {{name}} and gives of the value {{**name}}.";
    let result = parse(template_str, &a).unwrap();
    assert_eq!(
        result,
        "Your key is named key_name and gives of the value 35.".to_string()
    )
}

#[test]
fn test_escape_mirror() {
    let mut a = FlatMap::new();
    a.insert("name", "Doe");
    a.insert("age", "35");
    a.insert("*key_name", "age");

    let template_str = "Hello {{name}}! What's your {{\\*key_name}}?";
    let result = generate(template_str, &a).unwrap();
    assert_eq!(result, "Hello Doe! What's your age?".to_string())
}

#[test]
fn test_nested_templates() {
    let mut a = FlatMap::new();
    a.insert("time", "today");
    a.insert("name", "Doe");
    a.insert("beers_count", "2");
    a.insert("dialog", "I only have {{beers_count}} beers for you {{time}}");
    a.insert("bye", "Well, bye {{name}}! {{{polite}}}");
    a.insert("polite", "Enjoy your {{beers_count}} beers.");

    let template_str = "Hello {{name}}! {{{dialog}}}... {{{bye}}}";
    let result = generate(template_str, &a).unwrap();
    assert_eq!(
        result,
        "Hello Doe! I only have 2 beers for you today... Well, bye Doe! Enjoy your 2 beers."
            .to_string()
    )
}

#[test]
fn test_serialize_and_write_nested_field_mirror_can_fail() {
    let a = object(vec![
        ("name", text("Doe")),
        ("age", number("35")),
        ("key_name", text("surname")),
    ]);
    let template_str = "Hello {{name}}! Is it true that you're {{*key_name}} years old?";
    let result = match parse(template_str, &a) {
        Ok(_) => StringTemplaterError::MissingCurvyBracket("".to_string()),
        Err(err) => err,
    };
    assert_eq!(
        result,
        StringTemplaterError::UnknownField(
            "The field `surname` does not exist in the hashmap.".to_string()
        )
    )
}

#[test]
fn test_serialize_and_write_nested_field_mirror_can_fail_with_options_display_missing_fields() {
    let a = object(vec![
        ("name", text("Doe")),
        ("age", number("35")),
        ("key_name", text("surname")),
    ]);
    let template_str = "Hello {{name}}! Is it true that you're {{current_age}} years old?";
    let result = parse_with_options(
        template_str,
        &a,
        &StringTemplaterOptions {
            safe_parse: true,
            display_missing_keys: true,
            override_missing_keys: None,
        },
    )
    .unwrap();
    assert_eq!(
        result,
        "Hello Doe! Is it true that you're [MISSING_KEY: `current_age`] years old?".to_string(),
    )
}

#[test]
fn test_serialize_and_write_nested_field_mirror_can_fail_with_options_display_missing_fields_override(
) {
    let a = object(vec![
        ("name", text("Doe")),
        ("age", number("35")),
        ("key_name", text("surname")),
    ]);
    let template_str = "Hello {{name}}! Is it true that you're {{current_age}} years old?";
    let result = parse_with_options(
        template_str,
        &a,
        &StringTemplaterOptions {
            safe_parse: true,
            display_missing_keys: true,
            override_missing_keys: Some(OverrideMessage {
                prefix: "[key `".to_string(),
                suffix: "` is missing]".to_string(),
            }),
        },
    )
    .unwrap();
    assert_eq!(
        result,
        "Hello Doe! Is it true that you're [key `current_age` is missing] years old?".to_string(),
    )
}

#[test]
fn test_serialize_and_write_nested_field_mirror_can_fail_with_options_hide_missing_fields() {
    let a = object(vec![
        ("name", text("Doe")),
        ("age", number("35")),
        ("key_name", text("surname")),
    ]);
    let template_str = "Hello {{name}}! Is it true that you're {{current_age}} years old?";
    let result = parse_with_options(
        template_str,
        &a,
        &StringTemplaterOptions {
            safe_parse: true,
            display_missing_keys: false,
            override_missing_keys: None,
        },
    )
    .unwrap();
    assert_eq!(
        result,
        "Hello Doe! Is it true that you're  years old?".to_string(),
    )
}

#[test]
fn test_serialize_vector_field_and_index() {
    let a = StructuredValue::Object(vec![(
        "items".to_string(),
        StructuredValue::Array(vec![
            object(vec![("name", text("john"))]),
            object(vec![("name", text("janne"))]),
            object(vec![("name", text("alice"))]),
            object(vec![("name", text("bob"))]),
        ]),
    )]);
    let template_str = "You should be {{items.2.name}}.";
    let result = parse(template_str, &a).unwrap();
    assert_eq!(result, "You should be alice.".to_string())
}
