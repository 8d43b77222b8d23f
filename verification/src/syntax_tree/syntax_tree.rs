use vstd::prelude::*;
use crate::lexer::token::{Token, TokenView};
use super::grammar::{
    done, empty_call, enum_values, expect, extends, field_value, left, lemma_extends_nothing,
    lemma_extends_twice, object_fields, parse_array, parse_enum, parse_expression, parse_literal,
    parse_number, parse_object, parse_plain, parse_string, parse_union, parse_zod, skip_scope,
    string_chain, token_at, union_options, Parsed,
};

verus! {

/// A schema as the parser understands it.
#[derive(Debug, PartialEq, Eq)]
pub enum ZodExpression {
    Object(Box<Vec<(String, ZodExpression)>>),
    Array(Box<ZodExpression>),
    Literal(String),
    Number,
    UUID,
    String,
    Boolean,
    Email,
    Any,
    Enum(Vec<String>),
    Union(Vec<ZodExpression>),
}

/// The mathematical value of a [`ZodExpression`]: a finite tree whose texts
/// are sequences of characters.
pub ghost enum ExpressionView {
    Object(Seq<(Seq<char>, ExpressionView)>),
    Array(Box<ExpressionView>),
    Literal(Seq<char>),
    Number,
    UUID,
    String,
    Boolean,
    Email,
    Any,
    Enum(Seq<Seq<char>>),
    Union(Seq<ExpressionView>),
}

/// Why a sequence of tokens is no schema expression.
#[derive(Debug, PartialEq)]
pub enum SyntaxError {
    /// The first token was wanted, the second was there.
    UnexpectedToken(Token, Token),
    InvalidIdentifier(String),
    UnexpectedEndOfFile,
    UnexpectedTokenInEnum(Token),
    UnexpectedTokenInObjectBody(Token),
}

/// The mathematical value of a [`SyntaxError`].
pub ghost enum SyntaxErrorView {
    UnexpectedToken(TokenView, TokenView),
    InvalidIdentifier(Seq<char>),
    UnexpectedEndOfFile,
    UnexpectedTokenInEnum(TokenView),
    UnexpectedTokenInObjectBody(TokenView),
}

impl View for SyntaxError {
    type V = SyntaxErrorView;

    open spec fn view(&self) -> SyntaxErrorView {
        match self {
            SyntaxError::UnexpectedToken(wanted, found) => SyntaxErrorView::UnexpectedToken(
                wanted@,
                found@,
            ),
            SyntaxError::InvalidIdentifier(name) => SyntaxErrorView::InvalidIdentifier(name@),
            SyntaxError::UnexpectedEndOfFile => SyntaxErrorView::UnexpectedEndOfFile,
            SyntaxError::UnexpectedTokenInEnum(found) => SyntaxErrorView::UnexpectedTokenInEnum(
                found@,
            ),
            SyntaxError::UnexpectedTokenInObjectBody(found) =>
                SyntaxErrorView::UnexpectedTokenInObjectBody(found@),
        }
    }
}

impl ZodExpression {
    /// The tree that this expression stands for.
    pub open spec fn tree(&self) -> ExpressionView
        decreases self,
    {
        match self {
            ZodExpression::Object(fields) => ExpressionView::Object(
                Seq::new(
                    fields.len() as nat,
                    |i: int|
                        if 0 <= i < fields.len() {
                            (fields[i].0@, fields[i].1.tree())
                        } else {
                            (Seq::empty(), ExpressionView::Any)
                        },
                ),
            ),
            ZodExpression::Array(item) => ExpressionView::Array(Box::new(item.tree())),
            ZodExpression::Literal(value) => ExpressionView::Literal(value@),
            ZodExpression::Number => ExpressionView::Number,
            ZodExpression::UUID => ExpressionView::UUID,
            ZodExpression::String => ExpressionView::String,
            ZodExpression::Boolean => ExpressionView::Boolean,
            ZodExpression::Email => ExpressionView::Email,
            ZodExpression::Any => ExpressionView::Any,
            ZodExpression::Enum(values) => ExpressionView::Enum(values.deep_view()),
            ZodExpression::Union(options) => ExpressionView::Union(
                Seq::new(
                    options.len() as nat,
                    |i: int|
                        if 0 <= i < options.len() {
                            options[i].tree()
                        } else {
                            ExpressionView::Any
                        },
                ),
            ),
        }
    }
}

impl View for ZodExpression {
    type V = ExpressionView;

    open spec fn view(&self) -> ExpressionView {
        self.tree()
    }
}

/// The trees of a list of expressions, in order.
pub open spec fn trees(list: Seq<ZodExpression>) -> Seq<ExpressionView> {
    Seq::new(list.len(), |i: int| list[i].tree())
}

/// The names and trees of a list of fields, in order.
pub open spec fn field_trees(list: Seq<(String, ZodExpression)>) -> Seq<
    (Seq<char>, ExpressionView),
> {
    Seq::new(list.len(), |i: int| (list[i].0@, list[i].1.tree()))
}

/// The mathematical value of what an executable production returns.
pub open spec fn result_view<T: View>(res: Result<T, SyntaxError>) -> Result<T::V, SyntaxErrorView> {
    match res {
        Ok(value) => Ok(value@),
        Err(error) => Err(error@),
    }
}

/// What stands behind a dot in the chain of a string.
enum ChainStep {
    Email,
    Uuid,
    Other,
    NoName,
    End,
}

/// A cursor over a sequence of tokens, from which schema expressions are
/// read.
pub struct SyntaxTree {
    tokens: Vec<Token>,
    pos: usize,
}

impl SyntaxTree {
    #[verifier::type_invariant]
    spec fn in_bounds(&self) -> bool {
        self.pos <= self.tokens.len()
    }

    /// All the tokens, those that were read already too.
    pub closed spec fn tokens(&self) -> Seq<TokenView> {
        self.tokens.deep_view()
    }

    /// The index in `tokens()` of the token that is read next.
    pub closed spec fn position(&self) -> int {
        self.pos as int
    }

    /// This cursor is `before` after a production that came to `parsed` and
    /// returned `res`.
    pub open spec fn agrees<T: View>(
        &self,
        before: SyntaxTree,
        res: Result<T, SyntaxError>,
        parsed: Parsed<T::V>,
    ) -> bool {
        &&& self.tokens() == before.tokens()
        &&& self.position() == before.position() + parsed.used
        &&& result_view(res) == parsed.result
    }

    /// A cursor at the first of `tokens`.
    pub fn new(tokens: Vec<Token>) -> (tree: SyntaxTree)
        ensures
            tree.tokens() == tokens.deep_view(),
            tree.position() == 0,
    {
        SyntaxTree { tokens, pos: 0 }
    }

    /// The token that is read next, if there is one.
    fn peek(&self) -> (token: Option<&Token>)
        ensures
            self.position() <= self.tokens().len(),
            match token {
                Some(t) => token_at(self.tokens(), self.position()) == Some(t@),
                None => token_at(self.tokens(), self.position()) is None,
            },
    {
        proof {
            use_type_invariant(self);
        }
        if self.pos < self.tokens.len() {
            Some(&self.tokens[self.pos])
        } else {
            None
        }
    }

    /// Takes the next token, if there is one.
    fn next(&mut self) -> (token: Option<Token>)
        ensures
            final(self).tokens() == old(self).tokens(),
            final(self).position() <= final(self).tokens().len(),
            match token {
                Some(t) => {
                    &&& token_at(old(self).tokens(), old(self).position()) == Some(t@)
                    &&& final(self).position() == old(self).position() + 1
                },
                None => {
                    &&& token_at(old(self).tokens(), old(self).position()) is None
                    &&& final(self).position() == old(self).position()
                },
            },
    {
        proof {
            use_type_invariant(&*self);
        }
        if self.pos < self.tokens.len() {
            let token = self.tokens[self.pos].clone();
            self.pos = self.pos + 1;
            Some(token)
        } else {
            None
        }
    }

    /// Takes the next token, which has to be `want`.
    fn expect(&mut self, want: Token) -> (res: Result<(), SyntaxError>)
        ensures
            final(self).agrees(
                *old(self),
                res,
                expect(old(self).tokens(), old(self).position(), want@),
            ),
    {
        match self.next() {
            Some(found) => if found == want {
                Ok(())
            } else {
                Err(SyntaxError::UnexpectedToken(want, found))
            },
            None => Err(SyntaxError::UnexpectedEndOfFile),
        }
    }

    fn parse_left_round(&mut self) -> (res: Result<(), SyntaxError>)
        ensures
            final(self).agrees(
                *old(self),
                res,
                expect(old(self).tokens(), old(self).position(), TokenView::LRound),
            ),
    {
        self.expect(Token::LRound)
    }

    fn parse_right_round(&mut self) -> (res: Result<(), SyntaxError>)
        ensures
            final(self).agrees(
                *old(self),
                res,
                expect(old(self).tokens(), old(self).position(), TokenView::RRound),
            ),
    {
        self.expect(Token::RRound)
    }

    fn parse_left_curly(&mut self) -> (res: Result<(), SyntaxError>)
        ensures
            final(self).agrees(
                *old(self),
                res,
                expect(old(self).tokens(), old(self).position(), TokenView::LCurly),
            ),
    {
        self.expect(Token::LCurly)
    }

    fn parse_colon(&mut self) -> (res: Result<(), SyntaxError>)
        ensures
            final(self).agrees(
                *old(self),
                res,
                expect(old(self).tokens(), old(self).position(), TokenView::Colon),
            ),
    {
        self.expect(Token::Colon)
    }

    fn parse_left_square(&mut self) -> (res: Result<(), SyntaxError>)
        ensures
            final(self).agrees(
                *old(self),
                res,
                expect(old(self).tokens(), old(self).position(), TokenView::LSquare),
            ),
    {
        self.expect(Token::LSquare)
    }

    fn parse_dot(&mut self) -> (res: Result<(), SyntaxError>)
        ensures
            final(self).agrees(
                *old(self),
                res,
                expect(old(self).tokens(), old(self).position(), TokenView::Dot),
            ),
    {
        self.expect(Token::Dot)
    }

    /// Passes over what is left of the scope: all tokens up to the next `,`,
    /// `]`, `}` or end of input.
    fn parse_to_end_of_scope(&mut self)
        ensures
            final(self).tokens() == old(self).tokens(),
            final(self).position() == old(self).position() + skip_scope(
                old(self).tokens(),
                old(self).position(),
            ),
    {
        loop
            invariant
                self.tokens() == old(self).tokens(),
                old(self).position() <= self.position(),
                self.position() + skip_scope(self.tokens(), self.position()) == old(
                    self,
                ).position() + skip_scope(old(self).tokens(), old(self).position()),
            ensures
                self.position() == old(self).position() + skip_scope(
                    old(self).tokens(),
                    old(self).position(),
                ),
            decreases left(self.tokens(), self.position()),
        {
            let stop = match self.peek() {
                Some(Token::Eof) | Some(Token::RSquare) | Some(Token::Comma) | Some(
                    Token::RCurly,
                ) | None => true,
                Some(_) => false,
            };
            if stop {
                break;
            }
            self.next();
        }
    }

    /// `(` and `)` behind a name, which is passed over.
    fn parse_empty_call(&mut self) -> (res: Result<(), SyntaxError>)
        requires
            old(self).position() < old(self).tokens().len(),
        ensures
            final(self).agrees(
                *old(self),
                res,
                empty_call(old(self).tokens(), old(self).position()),
            ),
    {
        self.next();
        self.parse_left_round()?;
        self.parse_right_round()?;
        Ok(())
    }

    /// `any()`: the name is next.
    fn parse_zod_any(&mut self) -> (res: Result<ZodExpression, SyntaxError>)
        requires
            old(self).position() < old(self).tokens().len(),
        ensures
            final(self).agrees(
                *old(self),
                res,
                parse_plain(old(self).tokens(), old(self).position(), ExpressionView::Any),
            ),
    {
        self.parse_empty_call()?;
        Ok(ZodExpression::Any)
    }

    /// `boolean()`: the name is next.
    fn parse_zod_boolean(&mut self) -> (res: Result<ZodExpression, SyntaxError>)
        requires
            old(self).position() < old(self).tokens().len(),
        ensures
            final(self).agrees(
                *old(self),
                res,
                parse_plain(old(self).tokens(), old(self).position(), ExpressionView::Boolean),
            ),
    {
        self.parse_empty_call()?;
        Ok(ZodExpression::Boolean)
    }

    /// `number()` and what follows it in its scope: the name is next.
    fn parse_zod_number(&mut self) -> (res: Result<ZodExpression, SyntaxError>)
        requires
            old(self).position() < old(self).tokens().len(),
        ensures
            final(self).agrees(
                *old(self),
                res,
                parse_number(old(self).tokens(), old(self).position()),
            ),
    {
        self.parse_empty_call()?;
        self.parse_to_end_of_scope();
        Ok(ZodExpression::Number)
    }

    /// `literal("..")`: the name is next.
    fn parse_zod_literal(&mut self) -> (res: Result<ZodExpression, SyntaxError>)
        requires
            old(self).position() < old(self).tokens().len(),
        ensures
            final(self).agrees(
                *old(self),
                res,
                parse_literal(old(self).tokens(), old(self).position()),
            ),
    {
        self.next();
        self.parse_left_round()?;
        match self.next() {
            Some(Token::Str(value)) => {
                self.parse_right_round()?;
                Ok(ZodExpression::Literal(value))
            },
            Some(token) => Err(
                SyntaxError::UnexpectedToken(Token::Str("\"\"".to_string()), token),
            ),
            None => Err(SyntaxError::UnexpectedEndOfFile),
        }
    }

    /// `string()` and the chain behind it: the name is next.
    fn parse_zod_string(&mut self) -> (res: Result<ZodExpression, SyntaxError>)
        requires
            old(self).position() < old(self).tokens().len(),
        ensures
            final(self).agrees(
                *old(self),
                res,
                parse_string(old(self).tokens(), old(self).position()),
            ),
    {
        self.parse_empty_call()?;
        let ghost start = self.position();
        loop
            invariant
                self.tokens() == old(self).tokens(),
                start <= self.position(),
                string_chain(self.tokens(), start).result == string_chain(
                    self.tokens(),
                    self.position(),
                ).result,
                start + string_chain(self.tokens(), start).used == self.position() + string_chain(
                    self.tokens(),
                    self.position(),
                ).used,
                parse_string(old(self).tokens(), old(self).position()).result == string_chain(
                    self.tokens(),
                    start,
                ).result,
                old(self).position() + parse_string(old(self).tokens(), old(self).position()).used
                    == start + string_chain(self.tokens(), start).used,
            ensures
                self.tokens() == old(self).tokens(),
                token_at(self.tokens(), self.position()) != Some(TokenView::Dot),
                parse_string(old(self).tokens(), old(self).position()).result == Ok::<
                    ExpressionView,
                    SyntaxErrorView,
                >(ExpressionView::String),
                old(self).position() + parse_string(old(self).tokens(), old(self).position()).used
                    == self.position() + skip_scope(self.tokens(), self.position()),
            decreases left(self.tokens(), self.position()),
        {
            let at_dot = match self.peek() {
                Some(Token::Dot) => true,
                _ => false,
            };
            if !at_dot {
                break;
            }
            self.next();
            let step = match self.peek() {
                Some(Token::Ident(name)) => if str::eq(name.as_str(), "email") {
                    ChainStep::Email
                } else if str::eq(name.as_str(), "uuid") {
                    ChainStep::Uuid
                } else {
                    ChainStep::Other
                },
                Some(_) => ChainStep::NoName,
                None => ChainStep::End,
            };
            match step {
                ChainStep::Email => {
                    self.parse_to_end_of_scope();
                    return Ok(ZodExpression::Email);
                },
                ChainStep::Uuid => {
                    self.parse_to_end_of_scope();
                    return Ok(ZodExpression::UUID);
                },
                ChainStep::NoName => {
                    return match self.next() {
                        Some(found) => Err(
                            SyntaxError::UnexpectedToken(Token::Ident("".to_string()), found),
                        ),
                        None => Err(SyntaxError::UnexpectedEndOfFile),
                    };
                },
                ChainStep::End => {
                    return Err(SyntaxError::UnexpectedEndOfFile);
                },
                ChainStep::Other => {},
            }
            self.next();
        }
        self.parse_to_end_of_scope();
        Ok(ZodExpression::String)
    }

    /// `enum([..])` and what follows it in its scope: the name is next.
    fn parse_zod_enum(&mut self) -> (res: Result<ZodExpression, SyntaxError>)
        requires
            old(self).position() < old(self).tokens().len(),
        ensures
            final(self).agrees(
                *old(self),
                res,
                parse_enum(old(self).tokens(), old(self).position()),
            ),
    {
        self.next();
        self.parse_left_round()?;
        self.parse_left_square()?;
        let mut arr: Vec<String> = Vec::new();
        let ghost start = self.position();
        let ghost whole = enum_values(self.tokens(), start);
        proof {
            lemma_extends_nothing(0, whole);
            assert(arr.deep_view() =~= Seq::<Seq<char>>::empty());
        }
        loop
            invariant_except_break
                whole == extends(
                    arr.deep_view(),
                    (self.position() - start) as nat,
                    enum_values(self.tokens(), self.position()),
                ),
            invariant
                self.tokens() == old(self).tokens(),
                start == old(self).position() + 3,
                expect(self.tokens(), old(self).position() + 1, TokenView::LRound).result is Ok,
                expect(self.tokens(), old(self).position() + 2, TokenView::LSquare).result is Ok,
                start <= self.position(),
                whole == enum_values(self.tokens(), start),
            ensures
                self.tokens() == old(self).tokens(),
                start == old(self).position() + 3,
                expect(self.tokens(), old(self).position() + 1, TokenView::LRound).result is Ok,
                expect(self.tokens(), old(self).position() + 2, TokenView::LSquare).result is Ok,
                whole == enum_values(self.tokens(), start),
                whole == done(arr.deep_view(), (self.position() - start) as nat),
                start <= self.position(),
            decreases left(self.tokens(), self.position()),
        {
            let ghost before = arr.deep_view();
            let ghost at = self.position();
            let ghost rest = enum_values(self.tokens(), at + 1);
            match self.next() {
                Some(Token::RSquare) => {
                    proof {
                        assert(before + Seq::<Seq<char>>::empty() =~= before);
                    }
                    break;
                },
                Some(Token::Comma) => {
                    proof {
                        lemma_extends_twice(
                            before,
                            (at - start) as nat,
                            Seq::empty(),
                            1,
                            rest,
                        );
                        lemma_extends_nothing(1, rest);
                        assert(before + Seq::<Seq<char>>::empty() =~= before);
                    }
                },
                Some(Token::Str(value)) => {
                    proof {
                        lemma_extends_twice(
                            before,
                            (at - start) as nat,
                            seq![value@],
                            1,
                            rest,
                        );
                    }
                    arr.push(value);
                    proof {
                        assert(arr.deep_view() =~= before + seq![value@]);
                    }
                },
                None => {
                    return Err(SyntaxError::UnexpectedEndOfFile);
                },
                Some(token) => {
                    return Err(SyntaxError::UnexpectedTokenInEnum(token));
                },
            }
        }
        self.parse_right_round()?;
        self.parse_to_end_of_scope();
        Ok(ZodExpression::Enum(arr))
    }

    /// Reads one schema expression and says, where there is none, why.
    pub fn try_parse(&mut self) -> (res: Result<ZodExpression, SyntaxError>)
        ensures
            final(self).agrees(
                *old(self),
                res,
                parse_expression(old(self).tokens(), old(self).position()),
            ),
        decreases left(old(self).tokens(), old(self).position()), 1nat,
    {
        let rooted = match self.peek() {
            Some(Token::Ident(name)) => str::eq(name.as_str(), "z"),
            Some(_) => false,
            None => {
                return Err(SyntaxError::UnexpectedEndOfFile);
            },
        };
        if rooted {
            self.parse_zod()
        } else {
            match self.peek() {
                Some(found) => Err(
                    SyntaxError::UnexpectedToken(Token::Ident("z".to_string()), found.clone()),
                ),
                None => Err(SyntaxError::UnexpectedEndOfFile),
            }
        }
    }

    /// Reads one schema expression; `None` where there is none.
    pub fn parse(&mut self) -> (res: Option<ZodExpression>)
        ensures
            final(self).tokens() == old(self).tokens(),
            final(self).position() == old(self).position() + parse_expression(
                old(self).tokens(),
                old(self).position(),
            ).used,
            match res {
                Some(expression) => parse_expression(
                    old(self).tokens(),
                    old(self).position(),
                ).result == Ok::<ExpressionView, SyntaxErrorView>(expression@),
                None => parse_expression(old(self).tokens(), old(self).position()).result is Err,
            },
    {
        match self.try_parse() {
            Ok(expression) => Some(expression),
            Err(_) => None,
        }
    }

    /// What follows the root marker or a `coerce`, which is next and is
    /// passed over.
    fn parse_zod(&mut self) -> (res: Result<ZodExpression, SyntaxError>)
        requires
            old(self).position() < old(self).tokens().len(),
        ensures
            final(self).agrees(
                *old(self),
                res,
                parse_zod(old(self).tokens(), old(self).position()),
            ),
        decreases left(old(self).tokens(), old(self).position()), 0nat,
    {
        self.next();
        self.parse_dot()?;
        let name: String = match self.peek() {
            Some(Token::Ident(name)) => name.clone(),
            Some(_) => {
                match self.next() {
                    Some(found) => {
                        return Err(
                            SyntaxError::UnexpectedToken(Token::Ident("".to_string()), found),
                        );
                    },
                    None => {
                        return Err(SyntaxError::UnexpectedEndOfFile);
                    },
                }
            },
            None => {
                return Err(SyntaxError::UnexpectedEndOfFile);
            },
        };
        let word = name.as_str();
        if str::eq(word, "object") {
            self.parse_zod_object_body()
        } else if str::eq(word, "array") {
            self.parse_zod_array()
        } else if str::eq(word, "literal") {
            self.parse_zod_literal()
        } else if str::eq(word, "number") {
            self.parse_zod_number()
        } else if str::eq(word, "enum") {
            self.parse_zod_enum()
        } else if str::eq(word, "string") {
            self.parse_zod_string()
        } else if str::eq(word, "boolean") {
            self.parse_zod_boolean()
        } else if str::eq(word, "any") {
            self.parse_zod_any()
        } else if str::eq(word, "union") {
            self.parse_zod_union()
        } else if str::eq(word, "coerce") {
            self.parse_zod()
        } else {
            Err(SyntaxError::InvalidIdentifier(name))
        }
    }

    /// `array(..)` and what follows it in its scope: the name is next.
    fn parse_zod_array(&mut self) -> (res: Result<ZodExpression, SyntaxError>)
        requires
            old(self).position() < old(self).tokens().len(),
        ensures
            final(self).agrees(
                *old(self),
                res,
                parse_array(old(self).tokens(), old(self).position()),
            ),
        decreases left(old(self).tokens(), old(self).position()), 3nat,
    {
        self.next();
        self.parse_left_round()?;
        let exp = self.try_parse()?;
        self.parse_to_end_of_scope();
        Ok(ZodExpression::Array(Box::new(exp)))
    }

    /// `union([..])` and what follows it in its scope: the name is next.
    fn parse_zod_union(&mut self) -> (res: Result<ZodExpression, SyntaxError>)
        requires
            old(self).position() < old(self).tokens().len(),
        ensures
            final(self).agrees(
                *old(self),
                res,
                parse_union(old(self).tokens(), old(self).position()),
            ),
        decreases left(old(self).tokens(), old(self).position()), 3nat,
    {
        self.next();
        self.parse_left_round()?;
        self.parse_left_square()?;
        let mut arr: Vec<ZodExpression> = Vec::new();
        let ghost start = self.position();
        let ghost whole = union_options(self.tokens(), start);
        proof {
            lemma_extends_nothing(0, whole);
            assert(trees(arr@) =~= Seq::<ExpressionView>::empty());
        }
        loop
            invariant_except_break
                whole == extends(
                    trees(arr@),
                    (self.position() - start) as nat,
                    union_options(self.tokens(), self.position()),
                ),
            invariant
                self.tokens() == old(self).tokens(),
                start == old(self).position() + 3,
                old(self).position() < old(self).tokens().len(),
                expect(self.tokens(), old(self).position() + 1, TokenView::LRound).result is Ok,
                expect(self.tokens(), old(self).position() + 2, TokenView::LSquare).result is Ok,
                start <= self.position() <= self.tokens().len(),
                whole == union_options(self.tokens(), start),
            ensures
                whole == done(trees(arr@), (self.position() - start) as nat),
            decreases left(self.tokens(), self.position()),
        {
            let ghost before = trees(arr@);
            let ghost at = self.position();
            let exp = self.try_parse()?;
            let ghost first = parse_expression(self.tokens(), at);
            let ghost rest = union_options(self.tokens(), at + first.used + 1);
            arr.push(exp);
            proof {
                assert(trees(arr@) =~= before + seq![exp@]);
            }
            match self.next() {
                Some(Token::RSquare) => {
                    proof {
                        lemma_extends_twice(
                            before,
                            (at - start) as nat,
                            seq![exp@],
                            first.used + 1,
                            done(Seq::empty(), 0),
                        );
                        assert(seq![exp@] + Seq::<ExpressionView>::empty() =~= seq![exp@]);
                        assert(trees(arr@) + Seq::<ExpressionView>::empty() =~= trees(arr@));
                    }
                    break;
                },
                Some(Token::Comma) => {
                    proof {
                        lemma_extends_twice(
                            before,
                            (at - start) as nat,
                            seq![exp@],
                            first.used + 1,
                            rest,
                        );
                    }
                },
                Some(token) => {
                    return Err(SyntaxError::UnexpectedToken(Token::RSquare, token));
                },
                None => {
                    return Err(SyntaxError::UnexpectedEndOfFile);
                },
            }
        }
        self.parse_right_round()?;
        self.parse_to_end_of_scope();
        proof {
            assert(ZodExpression::Union(arr).tree() == ExpressionView::Union(trees(arr@))) by {
                assert(ZodExpression::Union(arr).tree()->Union_0 =~= trees(arr@));
            }
        }
        Ok(ZodExpression::Union(arr))
    }

    /// The colon and the expression behind the name of a field.
    fn parse_field_value(&mut self) -> (res: Result<ZodExpression, SyntaxError>)
        ensures
            final(self).agrees(
                *old(self),
                res,
                field_value(old(self).tokens(), old(self).position()),
            ),
        decreases left(old(self).tokens(), old(self).position()), 2nat,
    {
        self.parse_colon()?;
        self.try_parse()
    }

    /// `object({..})`: the name is next.
    fn parse_zod_object_body(&mut self) -> (res: Result<ZodExpression, SyntaxError>)
        requires
            old(self).position() < old(self).tokens().len(),
        ensures
            final(self).agrees(
                *old(self),
                res,
                parse_object(old(self).tokens(), old(self).position()),
            ),
        decreases left(old(self).tokens(), old(self).position()), 3nat,
    {
        self.next();
        self.parse_left_round()?;
        self.parse_left_curly()?;
        let mut obj: Vec<(String, ZodExpression)> = Vec::new();
        let ghost start = self.position();
        let ghost whole = object_fields(self.tokens(), start);
        proof {
            lemma_extends_nothing(0, whole);
            assert(field_trees(obj@) =~= Seq::<(Seq<char>, ExpressionView)>::empty());
        }
        loop
            invariant_except_break
                whole == extends(
                    field_trees(obj@),
                    (self.position() - start) as nat,
                    object_fields(self.tokens(), self.position()),
                ),
            invariant
                self.tokens() == old(self).tokens(),
                start == old(self).position() + 3,
                old(self).position() < old(self).tokens().len(),
                expect(self.tokens(), old(self).position() + 1, TokenView::LRound).result is Ok,
                expect(self.tokens(), old(self).position() + 2, TokenView::LCurly).result is Ok,
                start <= self.position() <= self.tokens().len(),
                whole == object_fields(self.tokens(), start),
            ensures
                whole == done(field_trees(obj@), (self.position() - start) as nat),
            decreases left(self.tokens(), self.position()),
        {
            let ghost before = field_trees(obj@);
            let ghost at = self.position();
            match self.next() {
                Some(Token::RCurly) => {
                    proof {
                        assert(before + Seq::<(Seq<char>, ExpressionView)>::empty() =~= before);
                    }
                    break;
                },
                Some(Token::RRound) | Some(Token::Comma) => {
                    proof {
                        let rest = object_fields(self.tokens(), at + 1);
                        lemma_extends_twice(before, (at - start) as nat, Seq::empty(), 1, rest);
                        lemma_extends_nothing(1, rest);
                        assert(before + Seq::<(Seq<char>, ExpressionView)>::empty() =~= before);
                    }
                },
                Some(Token::Ident(ident)) => {
                    let exp = self.parse_field_value()?;
                    proof {
                        use_type_invariant(&*self);
                        let value = field_value(self.tokens(), at + 1);
                        let rest = object_fields(self.tokens(), at + 1 + value.used);
                        lemma_extends_twice(
                            before,
                            (at - start) as nat,
                            seq![(ident@, exp@)],
                            1 + value.used,
                            rest,
                        );
                    }
                    obj.push((ident, exp));
                    proof {
                        assert(field_trees(obj@) =~= before + seq![(ident@, exp@)]);
                    }
                },
                Some(token) => {
                    return Err(SyntaxError::UnexpectedTokenInObjectBody(token));
                },
                None => {
                    return Err(SyntaxError::UnexpectedEndOfFile);
                },
            }
        }
        self.parse_right_round()?;
        proof {
            let made = ZodExpression::Object(Box::new(obj));
            assert(made.tree() == ExpressionView::Object(field_trees(obj@))) by {
                assert(made.tree()->Object_0 =~= field_trees(obj@));
            }
        }
        Ok(ZodExpression::Object(Box::new(obj)))
    }
}

} // verus!
