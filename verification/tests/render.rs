use rust_ts_json_compiler::compiler::{is_renderable, to_json};
use rust_ts_json_compiler::syntax_tree::ZodExpression;
use rust_ts_json_compiler::{get_syntax_tree, to_json as to_json_from_root};

#[test]
fn sentinels() {
    assert_eq!(to_json(&ZodExpression::Number), "1");
    assert_eq!(to_json(&ZodExpression::String), "\"string\"");
    assert_eq!(to_json(&ZodExpression::UUID), "\"aa5ac446-7e1d-11ee-b962-0242ac120002\"");
    assert_eq!(to_json(&ZodExpression::Boolean), "true");
    assert_eq!(to_json(&ZodExpression::Email), "\"admin@admin.com\"");
    assert_eq!(to_json(&ZodExpression::Any), "{}");
}

#[test]
fn literal_is_quoted_as_it_is() {
    assert_eq!(to_json(&ZodExpression::Literal("CREATED".to_string())), "\"CREATED\"");
    assert_eq!(to_json(&ZodExpression::Literal("".to_string())), "\"\"");
    assert_eq!(to_json(&ZodExpression::Literal("a\"b\\".to_string())), "\"a\"b\\\"");
}

#[test]
fn object_members_are_joined_with_comma_and_space() {
    let none = ZodExpression::Object(Box::new(vec![]));
    assert_eq!(to_json(&none), "{}");
    let one = ZodExpression::Object(Box::new(vec![("id".to_string(), ZodExpression::Number)]));
    assert_eq!(to_json(&one), "{\"id\": 1}");
    let three = ZodExpression::Object(Box::new(vec![
        ("b".to_string(), ZodExpression::Number),
        ("a".to_string(), ZodExpression::Boolean),
        ("b".to_string(), ZodExpression::String),
    ]));
    assert_eq!(to_json(&three), "{\"b\": 1, \"a\": true, \"b\": \"string\"}");
}

#[test]
fn array_shows_one_element() {
    let array = ZodExpression::Array(Box::new(ZodExpression::String));
    assert_eq!(to_json(&array), "[\"string\"]");
    let nested = ZodExpression::Array(Box::new(ZodExpression::Array(Box::new(
        ZodExpression::Object(Box::new(vec![("x".to_string(), ZodExpression::Any)])),
    ))));
    assert_eq!(to_json(&nested), "[[{\"x\": {}}]]");
}

#[test]
fn enum_shows_first_value() {
    let one = ZodExpression::Enum(vec!["a".to_string()]);
    assert_eq!(to_json(&one), "\"a\"");
    let many = ZodExpression::Enum(vec!["b".to_string(), "a".to_string(), "c".to_string()]);
    assert_eq!(to_json(&many), "\"b\"");
}

#[test]
fn union_shows_first_alternative() {
    let union = ZodExpression::Union(vec![ZodExpression::Number, ZodExpression::String]);
    assert_eq!(to_json(&union), "1");
    let other = ZodExpression::Union(vec![ZodExpression::String, ZodExpression::Number]);
    assert_eq!(to_json(&other), "\"string\"");
    let later_is_empty = ZodExpression::Union(vec![
        ZodExpression::Boolean,
        ZodExpression::Enum(vec![]),
    ]);
    assert!(is_renderable(&later_is_empty));
    assert_eq!(to_json(&later_is_empty), "true");
}

#[test]
fn empty_enum_and_union_cannot_be_shown() {
    assert!(!is_renderable(&ZodExpression::Enum(vec![])));
    assert!(!is_renderable(&ZodExpression::Union(vec![])));
    assert!(!is_renderable(&ZodExpression::Array(Box::new(ZodExpression::Enum(vec![])))));
    assert!(!is_renderable(&ZodExpression::Object(Box::new(vec![
        ("a".to_string(), ZodExpression::Number),
        ("b".to_string(), ZodExpression::Union(vec![])),
    ]))));
    assert!(!is_renderable(&ZodExpression::Union(vec![
        ZodExpression::Enum(vec![]),
        ZodExpression::Number,
    ])));
    assert!(is_renderable(&ZodExpression::Enum(vec!["a".to_string()])));
    assert!(is_renderable(&ZodExpression::Object(Box::new(vec![]))));
    assert!(is_renderable(&ZodExpression::Number));
}

#[test]
fn root_exports() {
    let tree = get_syntax_tree("z.array(z.any())").unwrap();
    assert_eq!(to_json_from_root(&tree), "[{}]");
}
