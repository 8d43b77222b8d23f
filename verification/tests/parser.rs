use rust_ts_json_compiler::compiler::{parse_schema, tokenize};
use rust_ts_json_compiler::lexer::Token;
use rust_ts_json_compiler::syntax_tree::{SyntaxError, SyntaxTree, ZodExpression};

fn ident(text: &str) -> Token {
    Token::Ident(text.to_string())
}

fn text(value: &str) -> Token {
    Token::Str(value.to_string())
}

fn call(name: &str) -> Vec<Token> {
    vec![ident("z"), Token::Dot, ident(name), Token::LRound, Token::RRound]
}

#[test]
fn parse_reads_from_given_tokens() {
    let mut tree = SyntaxTree::new(call("number"));
    assert_eq!(tree.parse(), Some(ZodExpression::Number));
    let mut tree = SyntaxTree::new(call("boolean"));
    assert_eq!(tree.parse(), Some(ZodExpression::Boolean));
    let mut tree = SyntaxTree::new(call("any"));
    assert_eq!(tree.parse(), Some(ZodExpression::Any));
    let mut tree = SyntaxTree::new(call("string"));
    assert_eq!(tree.parse(), Some(ZodExpression::String));
}

#[test]
fn parse_of_no_tokens_is_none() {
    let mut tree = SyntaxTree::new(vec![]);
    assert_eq!(tree.parse(), None);
    let mut tree = SyntaxTree::new(vec![]);
    assert_eq!(tree.try_parse(), Err(SyntaxError::UnexpectedEndOfFile));
}

#[test]
fn parse_goes_on_where_it_stopped() {
    let mut tokens = call("boolean");
    tokens.extend(call("any"));
    let mut tree = SyntaxTree::new(tokens);
    assert_eq!(tree.parse(), Some(ZodExpression::Boolean));
    assert_eq!(tree.parse(), Some(ZodExpression::Any));
    assert_eq!(tree.parse(), None);
}

#[test]
fn scope_ends_at_an_end_of_input_token() {
    let mut tokens = call("number");
    tokens.push(Token::Dot);
    tokens.push(ident("int"));
    tokens.push(Token::Eof);
    tokens.extend(call("any"));
    let mut tree = SyntaxTree::new(tokens);
    assert_eq!(tree.parse(), Some(ZodExpression::Number));
    assert_eq!(
        tree.try_parse(),
        Err(SyntaxError::UnexpectedToken(ident("z"), Token::Eof))
    );
}

#[test]
fn scope_ends_at_comma_square_and_curly() {
    for stop in [Token::Comma, Token::RSquare, Token::RCurly] {
        let mut tokens = call("number");
        tokens.push(Token::Dot);
        tokens.push(ident("int"));
        tokens.push(Token::LRound);
        tokens.push(Token::Illegal);
        tokens.push(Token::RRound);
        tokens.push(stop.clone());
        let mut tree = SyntaxTree::new(tokens);
        assert_eq!(tree.parse(), Some(ZodExpression::Number));
        assert_eq!(tree.try_parse(), Err(SyntaxError::UnexpectedToken(ident("z"), stop)));
    }
}

#[test]
fn object_tree() {
    assert_eq!(
        parse_schema("z.object({ id: z.number(), name: z.string() })"),
        Ok(ZodExpression::Object(Box::new(vec![
            ("id".to_string(), ZodExpression::Number),
            ("name".to_string(), ZodExpression::String),
        ])))
    );
}

#[test]
fn object_keeps_duplicate_names() {
    assert_eq!(
        parse_schema("z.object({ a: z.any(), a: z.boolean() })"),
        Ok(ZodExpression::Object(Box::new(vec![
            ("a".to_string(), ZodExpression::Any),
            ("a".to_string(), ZodExpression::Boolean),
        ])))
    );
}

#[test]
fn object_passes_over_stray_commas_and_round_brackets() {
    assert_eq!(
        parse_schema("z.object({ , a: z.any() ) ,, b: z.boolean() , })"),
        Ok(ZodExpression::Object(Box::new(vec![
            ("a".to_string(), ZodExpression::Any),
            ("b".to_string(), ZodExpression::Boolean),
        ])))
    );
}

#[test]
fn array_tree() {
    assert_eq!(
        parse_schema("z.array(z.string())"),
        Ok(ZodExpression::Array(Box::new(ZodExpression::String)))
    );
    assert_eq!(
        parse_schema("z.array(z.object({ a: z.any() })).optional()"),
        Ok(ZodExpression::Array(Box::new(ZodExpression::Object(Box::new(vec![(
            "a".to_string(),
            ZodExpression::Any
        )])))))
    );
}

#[test]
fn array_needs_no_closing_bracket() {
    assert_eq!(
        parse_schema("z.array(z.string()"),
        Ok(ZodExpression::Array(Box::new(ZodExpression::String)))
    );
}

#[test]
fn enum_tree() {
    assert_eq!(
        parse_schema("z.enum([\"a\", 'b', \"c\"])"),
        Ok(ZodExpression::Enum(vec!["a".to_string(), "b".to_string(), "c".to_string()]))
    );
    assert_eq!(parse_schema("z.enum([])"), Ok(ZodExpression::Enum(vec![])));
    assert_eq!(
        parse_schema("z.enum([,\"a\",,\"b\",])"),
        Ok(ZodExpression::Enum(vec!["a".to_string(), "b".to_string()]))
    );
}

#[test]
fn union_tree() {
    assert_eq!(
        parse_schema("z.union([z.number(), z.string(), z.literal(\"x\")])"),
        Ok(ZodExpression::Union(vec![
            ZodExpression::Number,
            ZodExpression::String,
            ZodExpression::Literal("x".to_string()),
        ]))
    );
}

#[test]
fn literal_tree() {
    assert_eq!(
        parse_schema("z.literal('it')"),
        Ok(ZodExpression::Literal("it".to_string()))
    );
    assert_eq!(
        parse_schema("z.literal(\"a\\\"b\")"),
        Ok(ZodExpression::Literal("a\"b".to_string()))
    );
}

#[test]
fn unexpected_token_names_what_was_wanted_and_what_was_found() {
    assert_eq!(
        parse_schema("z number()"),
        Err(SyntaxError::UnexpectedToken(Token::Dot, ident("number")))
    );
    assert_eq!(
        parse_schema("z.number[)"),
        Err(SyntaxError::UnexpectedToken(Token::LRound, Token::LSquare))
    );
    assert_eq!(
        parse_schema("z.number(]"),
        Err(SyntaxError::UnexpectedToken(Token::RRound, Token::RSquare))
    );
    assert_eq!(
        parse_schema("z.object(["),
        Err(SyntaxError::UnexpectedToken(Token::LCurly, Token::LSquare))
    );
    assert_eq!(
        parse_schema("z.object({ a z.any() })"),
        Err(SyntaxError::UnexpectedToken(Token::Colon, ident("z")))
    );
    assert_eq!(
        parse_schema("z.enum({"),
        Err(SyntaxError::UnexpectedToken(Token::LSquare, Token::LCurly))
    );
    assert_eq!(
        parse_schema("z.union([z.any() z.any()])"),
        Err(SyntaxError::UnexpectedToken(Token::RSquare, ident("z")))
    );
    assert_eq!(
        parse_schema("z.(")
        ,
        Err(SyntaxError::UnexpectedToken(ident(""), Token::LRound))
    );
    assert_eq!(
        parse_schema("z.string().5"),
        Err(SyntaxError::UnexpectedToken(ident(""), Token::Int("5".to_string())))
    );
    assert_eq!(
        parse_schema("z.literal(5)"),
        Err(SyntaxError::UnexpectedToken(text("\"\""), Token::Int("5".to_string())))
    );
    assert_eq!(
        parse_schema("object({})"),
        Err(SyntaxError::UnexpectedToken(ident("z"), ident("object")))
    );
    assert_eq!(
        parse_schema("z.array(5)"),
        Err(SyntaxError::UnexpectedToken(ident("z"), Token::Int("5".to_string())))
    );
    assert_eq!(
        parse_schema("z.union([])"),
        Err(SyntaxError::UnexpectedToken(ident("z"), Token::RSquare))
    );
    assert_eq!(
        parse_schema("z.object({ a: })"),
        Err(SyntaxError::UnexpectedToken(ident("z"), Token::RCurly))
    );
}

#[test]
fn invalid_identifier_names_the_word() {
    assert_eq!(
        parse_schema("z.date()"),
        Err(SyntaxError::InvalidIdentifier("date".to_string()))
    );
    assert_eq!(
        parse_schema("z.coerce.bigint()"),
        Err(SyntaxError::InvalidIdentifier("bigint".to_string()))
    );
    assert_eq!(
        parse_schema("z.object({ a: z.nope() })"),
        Err(SyntaxError::InvalidIdentifier("nope".to_string()))
    );
    assert_eq!(
        parse_schema("z.Object({})"),
        Err(SyntaxError::InvalidIdentifier("Object".to_string()))
    );
}

#[test]
fn unexpected_end_of_file() {
    for source in [
        "",
        "z",
        "z.",
        "z.number",
        "z.number(",
        "z.literal(",
        "z.literal(\"a\"",
        "z.object(",
        "z.object({",
        "z.object({ a",
        "z.object({ a:",
        "z.object({ a: z.any()",
        "z.object({ a: z.any() }",
        "z.enum(",
        "z.enum([",
        "z.enum([\"a\"",
        "z.enum([\"a\"]",
        "z.union([",
        "z.union([z.any()",
        "z.union([z.any(),",
        "z.union([z.any()]",
        "z.array(",
        "z.string().",
        "z.coerce",
    ] {
        assert_eq!(parse_schema(source), Err(SyntaxError::UnexpectedEndOfFile), "{}", source);
    }
}

#[test]
fn unexpected_token_in_enum() {
    assert_eq!(
        parse_schema("z.enum([\"a\", b])"),
        Err(SyntaxError::UnexpectedTokenInEnum(ident("b")))
    );
    assert_eq!(
        parse_schema("z.enum([1])"),
        Err(SyntaxError::UnexpectedTokenInEnum(Token::Int("1".to_string())))
    );
    assert_eq!(
        parse_schema("z.enum([\"a\")"),
        Err(SyntaxError::UnexpectedTokenInEnum(Token::RRound))
    );
}

#[test]
fn unexpected_token_in_object_body() {
    assert_eq!(
        parse_schema("z.object({ \"a\": z.any() })"),
        Err(SyntaxError::UnexpectedTokenInObjectBody(text("a")))
    );
    assert_eq!(
        parse_schema("z.object({ a: z.boolean().optional() })"),
        Err(SyntaxError::UnexpectedTokenInObjectBody(Token::Dot))
    );
    assert_eq!(
        parse_schema("z.object({ # })"),
        Err(SyntaxError::UnexpectedTokenInObjectBody(Token::Illegal))
    );
}

#[test]
fn errors_inside_are_the_errors_outside() {
    assert_eq!(
        parse_schema("z.array(z.union([z.object({ a: z.enum([x]) })]))"),
        Err(SyntaxError::UnexpectedTokenInEnum(ident("x")))
    );
}

#[test]
fn what_follows_the_expression_is_left_alone() {
    assert_eq!(parse_schema("z.boolean() z.any()"), Ok(ZodExpression::Boolean));
    assert_eq!(parse_schema("z.any())))"), Ok(ZodExpression::Any));
    assert_eq!(parse_schema("z.literal(\"a\").x"), Ok(ZodExpression::Literal("a".to_string())));
}

#[test]
fn parse_and_try_parse_agree() {
    for source in ["z.number()", "z.nope()", "z.object({ a: z.any() })", "x", "z.enum([1])"] {
        let mut first = SyntaxTree::new(tokenize(source));
        let mut second = SyntaxTree::new(tokenize(source));
        assert_eq!(first.parse(), second.try_parse().ok());
    }
}
