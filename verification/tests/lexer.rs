use rust_ts_json_compiler::compiler::tokenize;
use rust_ts_json_compiler::lexer::{Lexer, Token};

fn ident(text: &str) -> Token {
    Token::Ident(text.to_string())
}

#[test]
fn tokens_of_a_small_object() {
    assert_eq!(
        tokenize("z.object({ id: z.number() })"),
        vec![
            ident("z"),
            Token::Dot,
            ident("object"),
            Token::LRound,
            Token::LCurly,
            ident("id"),
            Token::Colon,
            ident("z"),
            Token::Dot,
            ident("number"),
            Token::LRound,
            Token::RRound,
            Token::RCurly,
            Token::RRound,
        ]
    );
}

#[test]
fn next_hands_out_one_token_at_a_time() {
    let mut lx = Lexer::new("a1_b , [ ]");
    assert_eq!(lx.next(), ident("a1_b"));
    assert_eq!(lx.next(), Token::Comma);
    assert_eq!(lx.next(), Token::LSquare);
    assert_eq!(lx.next(), Token::RSquare);
    assert_eq!(lx.next(), Token::Eof);
}

#[test]
fn end_of_input_is_repeated() {
    let mut lx = Lexer::new("x  ");
    assert_eq!(lx.next(), ident("x"));
    assert_eq!(lx.next(), Token::Eof);
    assert_eq!(lx.next(), Token::Eof);
    assert_eq!(lx.next(), Token::Eof);
    let mut empty = Lexer::new("");
    assert_eq!(empty.next(), Token::Eof);
    assert_eq!(empty.next(), Token::Eof);
}

#[test]
fn white_space_is_passed_over() {
    assert_eq!(tokenize(" \t\r\n a \n\t b\r "), vec![ident("a"), ident("b")]);
    assert_eq!(tokenize("   "), Vec::<Token>::new());
}

#[test]
fn identifiers_take_letters_digits_and_underscores() {
    assert_eq!(tokenize("_a9Z"), vec![ident("_a9Z")]);
    assert_eq!(tokenize("ab-cd"), vec![ident("ab"), Token::Illegal, ident("cd")]);
    assert_eq!(tokenize("not_z"), vec![ident("not_z")]);
}

#[test]
fn integers_take_digits_and_dots() {
    assert_eq!(tokenize("123"), vec![Token::Int("123".to_string())]);
    assert_eq!(tokenize("1.5"), vec![Token::Int("1.5".to_string())]);
    assert_eq!(tokenize("1..2.3."), vec![Token::Int("1..2.3.".to_string())]);
    assert_eq!(tokenize("5x"), vec![Token::Int("5".to_string()), ident("x")]);
    assert_eq!(tokenize(".5"), vec![Token::Dot, Token::Int("5".to_string())]);
}

#[test]
fn strings_lose_their_quotes() {
    assert_eq!(tokenize("\"abc\""), vec![Token::Str("abc".to_string())]);
    assert_eq!(tokenize("'abc'"), vec![Token::Str("abc".to_string())]);
    assert_eq!(tokenize("\"\""), vec![Token::Str("".to_string())]);
    assert_eq!(tokenize("\"it's\""), vec![Token::Str("it's".to_string())]);
    assert_eq!(tokenize("'say \"hi\"'"), vec![Token::Str("say \"hi\"".to_string())]);
    assert_eq!(tokenize("\"a b\"c"), vec![Token::Str("a b".to_string()), ident("c")]);
}

#[test]
fn backslash_keeps_the_next_character() {
    assert_eq!(tokenize("\"a\\\"b\""), vec![Token::Str("a\"b".to_string())]);
    assert_eq!(tokenize("\"a\\\\b\""), vec![Token::Str("a\\b".to_string())]);
    assert_eq!(tokenize("\"a\\nb\""), vec![Token::Str("anb".to_string())]);
    assert_eq!(tokenize("'\\''"), vec![Token::Str("'".to_string())]);
}

#[test]
fn strings_keep_other_alphabets() {
    assert_eq!(tokenize("\"h\u{e9}llo \u{20ac} \u{1f600}\""), vec![
        Token::Str("h\u{e9}llo \u{20ac} \u{1f600}".to_string())
    ]);
}

#[test]
fn quote_that_nothing_closes_is_illegal() {
    assert_eq!(tokenize("\"abc"), vec![Token::Illegal, ident("abc")]);
    assert_eq!(
        tokenize("x \"abc) , y"),
        vec![ident("x"), Token::Illegal, ident("abc"), Token::RRound, Token::Comma, ident("y")]
    );
    assert_eq!(tokenize("\"abc\\"), vec![Token::Illegal, ident("abc"), Token::Illegal]);
    assert_eq!(
        tokenize("\"abc\\\""),
        vec![Token::Illegal, ident("abc"), Token::Illegal, Token::Illegal]
    );
    assert_eq!(tokenize("'a\"b\""), vec![Token::Illegal, ident("a"), Token::Str("b".to_string())]);
    let mut lx = Lexer::new("'abc");
    assert_eq!(lx.next(), Token::Illegal);
    assert_eq!(lx.next(), ident("abc"));
    assert_eq!(lx.next(), Token::Eof);
}

#[test]
fn punctuation() {
    assert_eq!(
        tokenize(". : , ( ) { } [ ]"),
        vec![
            Token::Dot,
            Token::Colon,
            Token::Comma,
            Token::LRound,
            Token::RRound,
            Token::LCurly,
            Token::RCurly,
            Token::LSquare,
            Token::RSquare,
        ]
    );
}

#[test]
fn other_characters_are_illegal() {
    assert_eq!(tokenize("@"), vec![Token::Illegal]);
    assert_eq!(tokenize("a # b"), vec![ident("a"), Token::Illegal, ident("b")]);
    assert_eq!(tokenize("\u{e9}\u{128}"), vec![Token::Illegal, Token::Illegal]);
    assert_eq!(tokenize("-+"), vec![Token::Illegal, Token::Illegal]);
}

#[test]
fn nul_ends_the_input() {
    assert_eq!(tokenize("a\0b"), vec![ident("a")]);
    let mut lx = Lexer::new("a \0b");
    assert_eq!(lx.next(), ident("a"));
    assert_eq!(lx.next(), Token::Eof);
    assert_eq!(lx.next(), Token::Eof);
}

#[test]
fn peek_shows_the_byte_after_the_next_character() {
    let mut lx = Lexer::new("ab");
    assert_eq!(lx.peek(), b'b');
    assert_eq!(lx.peek(), b'b');
    assert_eq!(lx.next(), ident("ab"));
    assert_eq!(lx.peek(), 0);
    let mut one = Lexer::new("a");
    assert_eq!(one.peek(), 0);
    let mut none = Lexer::new("");
    assert_eq!(none.peek(), 0);
    let mut wide = Lexer::new("a\u{20ac}");
    assert_eq!(wide.peek(), 0xac);
}

#[test]
fn token_from_a_character() {
    assert_eq!(Token::from('('), Token::LRound);
    assert_eq!(Token::from(')'), Token::RRound);
    assert_eq!(Token::from(','), Token::Comma);
    assert_eq!(Token::from('{'), Token::LCurly);
    assert_eq!(Token::from('}'), Token::RCurly);
    assert_eq!(Token::from('['), Token::LSquare);
    assert_eq!(Token::from(']'), Token::RSquare);
    assert_eq!(Token::from('.'), Token::Dot);
    assert_eq!(Token::from(':'), Token::Colon);
    assert_eq!(Token::from('\0'), Token::Eof);
    assert_eq!(Token::from('a'), Token::Illegal);
    assert_eq!(Token::from('"'), Token::Illegal);
}

#[test]
fn token_from_a_word() {
    assert_eq!(Token::from("true".to_string()), Token::True);
    assert_eq!(Token::from("false".to_string()), Token::False);
    assert_eq!(Token::from("12.5".to_string()), Token::Int("12.5".to_string()));
    assert_eq!(Token::from("".to_string()), Token::Int("".to_string()));
    assert_eq!(Token::from("\"hi\"".to_string()), Token::Str("\"hi\"".to_string()));
    assert_eq!(Token::from("'hi'".to_string()), Token::Str("'hi'".to_string()));
    assert_eq!(Token::from("\"".to_string()), Token::Str("\"".to_string()));
    assert_eq!(Token::from("\"hi'".to_string()), ident("\"hi'"));
    assert_eq!(Token::from("truthy".to_string()), ident("truthy"));
    assert_eq!(Token::from("1a".to_string()), ident("1a"));
}

#[test]
fn token_as_text() {
    assert_eq!(Token::Illegal.to_string(), "");
    assert_eq!(Token::Eof.to_string(), "\0");
    assert_eq!(ident("abc").to_string(), "abc");
    assert_eq!(Token::Int("1.5".to_string()).to_string(), "1.5");
    assert_eq!(Token::Str("a b".to_string()).to_string(), "a b");
    assert_eq!(Token::Comma.to_string(), ",");
    assert_eq!(Token::LRound.to_string(), "(");
    assert_eq!(Token::RRound.to_string(), ")");
    assert_eq!(Token::LCurly.to_string(), "{");
    assert_eq!(Token::RCurly.to_string(), "}");
    assert_eq!(Token::LSquare.to_string(), "[");
    assert_eq!(Token::RSquare.to_string(), "]");
    assert_eq!(Token::True.to_string(), "true");
    assert_eq!(Token::False.to_string(), "false");
    assert_eq!(Token::Dot.to_string(), ".");
    assert_eq!(Token::Colon.to_string(), ":");
}

#[test]
fn token_clone_and_equality() {
    let token = Token::Str("x".to_string());
    assert_eq!(token.clone(), token);
    assert_ne!(Token::Str("x".to_string()), ident("x"));
    assert_ne!(ident("x"), ident("y"));
    assert_ne!(Token::True, Token::False);
}
