use vstd::prelude::*;
use crate::lexer::token::TokenView;
use super::syntax_tree::{ExpressionView, SyntaxErrorView};

verus! {

/// What a production makes of the tokens in front of it: a value or an
/// error, and the number of tokens that it took.
pub ghost struct Parsed<T> {
    pub result: Result<T, SyntaxErrorView>,
    pub used: nat,
}

/// The production gave `value` and took `used` tokens.
pub open spec fn done<T>(value: T, used: nat) -> Parsed<T> {
    Parsed { result: Ok(value), used }
}

/// The production failed with `error` after it took `used` tokens.
pub open spec fn fail<T>(error: SyntaxErrorView, used: nat) -> Parsed<T> {
    Parsed { result: Err(error), used }
}

/// `inner`, reached after `skipped` tokens.
pub open spec fn after<T>(skipped: nat, inner: Parsed<T>) -> Parsed<T> {
    Parsed { result: inner.result, used: skipped + inner.used }
}

/// The list of `rest` with `front` before it, where `front` took `skipped`
/// tokens.
pub open spec fn extends<T>(front: Seq<T>, skipped: nat, rest: Parsed<Seq<T>>) -> Parsed<Seq<T>> {
    Parsed {
        result: match rest.result {
            Ok(items) => Ok(front + items),
            Err(error) => Err(error),
        },
        used: skipped + rest.used,
    }
}

/// Putting a list in front of a list in two steps is putting both in
/// front at once.
pub proof fn lemma_extends_twice<T>(
    first: Seq<T>,
    skipped: nat,
    second: Seq<T>,
    more: nat,
    rest: Parsed<Seq<T>>,
)
    ensures
        extends(first, skipped, extends(second, more, rest)) == extends(
            first + second,
            skipped + more,
            rest,
        ),
{
    if let Ok(items) = rest.result {
        assert(first + (second + items) =~= (first + second) + items);
    }
}

/// Putting nothing in front of a list leaves it as it is.
pub proof fn lemma_extends_nothing<T>(skipped: nat, rest: Parsed<Seq<T>>)
    ensures
        extends(Seq::empty(), skipped, rest) == after(skipped, rest),
{
    if let Ok(items) = rest.result {
        assert(Seq::<T>::empty() + items =~= items);
    }
}

/// The token at index `pos`, if there is one.
pub open spec fn token_at(tokens: Seq<TokenView>, pos: int) -> Option<TokenView> {
    if 0 <= pos < tokens.len() {
        Some(tokens[pos])
    } else {
        None
    }
}

/// The number of tokens from index `pos` to the end, 0 behind the end.
pub open spec fn left(tokens: Seq<TokenView>, pos: int) -> nat {
    if pos <= tokens.len() {
        (tokens.len() - pos) as nat
    } else {
        0
    }
}

/// The identifier that every schema expression starts with.
pub open spec fn root_marker() -> TokenView {
    TokenView::Ident("z"@)
}

/// An identifier with no text, reported where any identifier was expected.
pub open spec fn any_ident() -> TokenView {
    TokenView::Ident(""@)
}

/// A string of two double quotes, reported where any string was expected.
pub open spec fn any_str() -> TokenView {
    TokenView::Str("\"\""@)
}

/// The token at `pos` has to be `want`. It is taken in either case.
pub open spec fn expect(tokens: Seq<TokenView>, pos: int, want: TokenView) -> Parsed<()> {
    match token_at(tokens, pos) {
        None => fail(SyntaxErrorView::UnexpectedEndOfFile, 0),
        Some(found) => if found == want {
            done((), 1)
        } else {
            fail(SyntaxErrorView::UnexpectedToken(want, found), 1)
        },
    }
}

/// A token at which a scope ends: nothing is skipped past it.
pub open spec fn ends_scope(token: TokenView) -> bool {
    token == TokenView::Eof || token == TokenView::RSquare || token == TokenView::Comma || token
        == TokenView::RCurly
}

/// The number of tokens from `pos` up to the next one that ends the scope,
/// or up to the end of the tokens.
pub open spec fn skip_scope(tokens: Seq<TokenView>, pos: int) -> nat
    decreases left(tokens, pos),
{
    match token_at(tokens, pos) {
        None => 0,
        Some(token) => if ends_scope(token) {
            0
        } else {
            1 + skip_scope(tokens, pos + 1)
        },
    }
}

/// A schema expression at `pos`: the root marker, a dot and one of the
/// productions.
pub open spec fn parse_expression(tokens: Seq<TokenView>, pos: int) -> Parsed<ExpressionView>
    decreases left(tokens, pos), 1nat,
{
    match token_at(tokens, pos) {
        None => fail(SyntaxErrorView::UnexpectedEndOfFile, 0),
        Some(found) => if found == root_marker() {
            parse_zod(tokens, pos)
        } else {
            fail(SyntaxErrorView::UnexpectedToken(root_marker(), found), 0)
        },
    }
}

/// What follows the root marker, or a `coerce`, at `pos`: a dot and the name
/// of a production, which decides how the rest is read. `coerce` stands for
/// nothing: what follows it is read in the same way.
pub open spec fn parse_zod(tokens: Seq<TokenView>, pos: int) -> Parsed<ExpressionView>
    decreases left(tokens, pos), 0nat,
{
    let dot = expect(tokens, pos + 1, TokenView::Dot);
    if dot.result is Err {
        fail(dot.result->Err_0, 1 + dot.used)
    } else {
        match token_at(tokens, pos + 2) {
            None => fail(SyntaxErrorView::UnexpectedEndOfFile, 2),
            Some(TokenView::Ident(name)) => if name == "object"@ {
                after(2, parse_object(tokens, pos + 2))
            } else if name == "array"@ {
                after(2, parse_array(tokens, pos + 2))
            } else if name == "literal"@ {
                after(2, parse_literal(tokens, pos + 2))
            } else if name == "number"@ {
                after(2, parse_number(tokens, pos + 2))
            } else if name == "enum"@ {
                after(2, parse_enum(tokens, pos + 2))
            } else if name == "string"@ {
                after(2, parse_string(tokens, pos + 2))
            } else if name == "boolean"@ {
                after(2, parse_plain(tokens, pos + 2, ExpressionView::Boolean))
            } else if name == "any"@ {
                after(2, parse_plain(tokens, pos + 2, ExpressionView::Any))
            } else if name == "union"@ {
                after(2, parse_union(tokens, pos + 2))
            } else if name == "coerce"@ {
                after(2, parse_zod(tokens, pos + 2))
            } else {
                fail(SyntaxErrorView::InvalidIdentifier(name), 2)
            },
            Some(found) => fail(SyntaxErrorView::UnexpectedToken(any_ident(), found), 3),
        }
    }
}

/// `(` and `)` behind the name at `pos`: a call without arguments.
pub open spec fn empty_call(tokens: Seq<TokenView>, pos: int) -> Parsed<()> {
    let open = expect(tokens, pos + 1, TokenView::LRound);
    if open.result is Err {
        fail(open.result->Err_0, 1 + open.used)
    } else {
        let close = expect(tokens, pos + 2, TokenView::RRound);
        if close.result is Err {
            fail(close.result->Err_0, 2 + close.used)
        } else {
            done((), 3)
        }
    }
}

/// A call without arguments at `pos` that gives `value` and leaves what
/// follows it alone.
pub open spec fn parse_plain(tokens: Seq<TokenView>, pos: int, value: ExpressionView) -> Parsed<
    ExpressionView,
> {
    let call = empty_call(tokens, pos);
    match call.result {
        Err(error) => fail(error, call.used),
        Ok(_) => done(value, call.used),
    }
}

/// `number()` at `pos`, and what follows it in its scope.
pub open spec fn parse_number(tokens: Seq<TokenView>, pos: int) -> Parsed<ExpressionView> {
    let call = empty_call(tokens, pos);
    match call.result {
        Err(error) => fail(error, call.used),
        Ok(_) => done(ExpressionView::Number, 3 + skip_scope(tokens, pos + 3)),
    }
}

/// `literal("...")` at `pos`.
pub open spec fn parse_literal(tokens: Seq<TokenView>, pos: int) -> Parsed<ExpressionView> {
    let open = expect(tokens, pos + 1, TokenView::LRound);
    if open.result is Err {
        fail(open.result->Err_0, 1 + open.used)
    } else {
        match token_at(tokens, pos + 2) {
            None => fail(SyntaxErrorView::UnexpectedEndOfFile, 2),
            Some(TokenView::Str(value)) => {
                let close = expect(tokens, pos + 3, TokenView::RRound);
                if close.result is Err {
                    fail(close.result->Err_0, 3 + close.used)
                } else {
                    done(ExpressionView::Literal(value), 4)
                }
            },
            Some(found) => fail(SyntaxErrorView::UnexpectedToken(any_str(), found), 3),
        }
    }
}

/// The chain of `.name` behind `string()`, from `pos` on. The first name
/// that is `email` or `uuid` decides the kind; every other name is passed
/// over. The chain ends at the first token that is no dot; the rest of the
/// scope is skipped.
pub open spec fn string_chain(tokens: Seq<TokenView>, pos: int) -> Parsed<ExpressionView>
    decreases left(tokens, pos),
{
    if token_at(tokens, pos) == Some(TokenView::Dot) {
        match token_at(tokens, pos + 1) {
            None => fail(SyntaxErrorView::UnexpectedEndOfFile, 1),
            Some(TokenView::Ident(name)) => if name == "email"@ {
                done(ExpressionView::Email, 1 + skip_scope(tokens, pos + 1))
            } else if name == "uuid"@ {
                done(ExpressionView::UUID, 1 + skip_scope(tokens, pos + 1))
            } else {
                after(2, string_chain(tokens, pos + 2))
            },
            Some(found) => fail(SyntaxErrorView::UnexpectedToken(any_ident(), found), 2),
        }
    } else {
        done(ExpressionView::String, skip_scope(tokens, pos))
    }
}

/// `string()` at `pos` and the chain behind it.
pub open spec fn parse_string(tokens: Seq<TokenView>, pos: int) -> Parsed<ExpressionView> {
    let call = empty_call(tokens, pos);
    match call.result {
        Err(error) => fail(error, call.used),
        Ok(_) => after(3, string_chain(tokens, pos + 3)),
    }
}

/// The strings of an enum from `pos` up to the closing `]`. Commas are
/// passed over wherever they stand.
pub open spec fn enum_values(tokens: Seq<TokenView>, pos: int) -> Parsed<Seq<Seq<char>>>
    decreases left(tokens, pos),
{
    match token_at(tokens, pos) {
        None => fail(SyntaxErrorView::UnexpectedEndOfFile, 0),
        Some(TokenView::RSquare) => done(Seq::empty(), 1),
        Some(TokenView::Comma) => after(1, enum_values(tokens, pos + 1)),
        Some(TokenView::Str(value)) => extends(seq![value], 1, enum_values(tokens, pos + 1)),
        Some(found) => fail(SyntaxErrorView::UnexpectedTokenInEnum(found), 1),
    }
}

/// `enum(["..", ..])` at `pos`, and what follows it in its scope.
pub open spec fn parse_enum(tokens: Seq<TokenView>, pos: int) -> Parsed<ExpressionView> {
    let open = expect(tokens, pos + 1, TokenView::LRound);
    if open.result is Err {
        fail(open.result->Err_0, 1 + open.used)
    } else {
        let square = expect(tokens, pos + 2, TokenView::LSquare);
        if square.result is Err {
            fail(square.result->Err_0, 2 + square.used)
        } else {
            let values = enum_values(tokens, pos + 3);
            match values.result {
                Err(error) => fail(error, 3 + values.used),
                Ok(list) => {
                    let close = expect(tokens, pos + 3 + values.used, TokenView::RRound);
                    if close.result is Err {
                        fail(close.result->Err_0, 3 + values.used + close.used)
                    } else {
                        done(
                            ExpressionView::Enum(list),
                            4 + values.used + skip_scope(tokens, pos + 4 + values.used),
                        )
                    }
                },
            }
        }
    }
}

/// The alternatives of a union from `pos` up to the closing `]`: schema
/// expressions with one comma between each two.
pub open spec fn union_options(tokens: Seq<TokenView>, pos: int) -> Parsed<Seq<ExpressionView>>
    decreases left(tokens, pos), 2nat,
{
    let first = parse_expression(tokens, pos);
    match first.result {
        Err(error) => fail(error, first.used),
        Ok(option) => match token_at(tokens, pos + first.used) {
            None => fail(SyntaxErrorView::UnexpectedEndOfFile, first.used),
            Some(TokenView::RSquare) => done(seq![option], first.used + 1),
            Some(TokenView::Comma) => extends(
                seq![option],
                first.used + 1,
                union_options(tokens, pos + first.used + 1),
            ),
            Some(found) => fail(
                SyntaxErrorView::UnexpectedToken(TokenView::RSquare, found),
                first.used + 1,
            ),
        },
    }
}

/// `union([.., ..])` at `pos`, and what follows it in its scope.
pub open spec fn parse_union(tokens: Seq<TokenView>, pos: int) -> Parsed<ExpressionView>
    decreases left(tokens, pos), 3nat,
{
    let open = expect(tokens, pos + 1, TokenView::LRound);
    if open.result is Err {
        fail(open.result->Err_0, 1 + open.used)
    } else {
        let square = expect(tokens, pos + 2, TokenView::LSquare);
        if square.result is Err {
            fail(square.result->Err_0, 2 + square.used)
        } else {
            let options = union_options(tokens, pos + 3);
            match options.result {
                Err(error) => fail(error, 3 + options.used),
                Ok(list) => {
                    let close = expect(tokens, pos + 3 + options.used, TokenView::RRound);
                    if close.result is Err {
                        fail(close.result->Err_0, 3 + options.used + close.used)
                    } else {
                        done(
                            ExpressionView::Union(list),
                            4 + options.used + skip_scope(tokens, pos + 4 + options.used),
                        )
                    }
                },
            }
        }
    }
}

/// `array(..)` at `pos`: one schema expression, and what follows it in its
/// scope.
pub open spec fn parse_array(tokens: Seq<TokenView>, pos: int) -> Parsed<ExpressionView>
    decreases left(tokens, pos), 3nat,
{
    let open = expect(tokens, pos + 1, TokenView::LRound);
    if open.result is Err {
        fail(open.result->Err_0, 1 + open.used)
    } else {
        let item = parse_expression(tokens, pos + 2);
        match item.result {
            Err(error) => fail(error, 2 + item.used),
            Ok(value) => done(
                ExpressionView::Array(Box::new(value)),
                2 + item.used + skip_scope(tokens, pos + 2 + item.used),
            ),
        }
    }
}

/// What stands behind the name of a field: a colon at `pos` and a schema
/// expression.
pub open spec fn field_value(tokens: Seq<TokenView>, pos: int) -> Parsed<ExpressionView>
    decreases left(tokens, pos), 2nat,
{
    let colon = expect(tokens, pos, TokenView::Colon);
    if colon.result is Err {
        fail(colon.result->Err_0, colon.used)
    } else {
        after(1, parse_expression(tokens, pos + 1))
    }
}

/// The fields of an object from `pos` up to the closing `}`: each a name, a
/// colon and a schema expression, in the order in which they stand. A `,`
/// or a `)` between them is passed over.
pub open spec fn object_fields(tokens: Seq<TokenView>, pos: int) -> Parsed<
    Seq<(Seq<char>, ExpressionView)>,
>
    decreases left(tokens, pos), 2nat,
{
    match token_at(tokens, pos) {
        None => fail(SyntaxErrorView::UnexpectedEndOfFile, 0),
        Some(TokenView::RCurly) => done(Seq::empty(), 1),
        Some(TokenView::RRound) => after(1, object_fields(tokens, pos + 1)),
        Some(TokenView::Comma) => after(1, object_fields(tokens, pos + 1)),
        Some(TokenView::Ident(name)) => {
            let value = field_value(tokens, pos + 1);
            match value.result {
                Err(error) => fail(error, 1 + value.used),
                Ok(expression) => extends(
                    seq![(name, expression)],
                    1 + value.used,
                    object_fields(tokens, pos + 1 + value.used),
                ),
            }
        },
        Some(found) => fail(SyntaxErrorView::UnexpectedTokenInObjectBody(found), 1),
    }
}

/// `object({ .. })` at `pos`.
pub open spec fn parse_object(tokens: Seq<TokenView>, pos: int) -> Parsed<ExpressionView>
    decreases left(tokens, pos), 3nat,
{
    let open = expect(tokens, pos + 1, TokenView::LRound);
    if open.result is Err {
        fail(open.result->Err_0, 1 + open.used)
    } else {
        let curly = expect(tokens, pos + 2, TokenView::LCurly);
        if curly.result is Err {
            fail(curly.result->Err_0, 2 + curly.used)
        } else {
            let fields = object_fields(tokens, pos + 3);
            match fields.result {
                Err(error) => fail(error, 3 + fields.used),
                Ok(list) => {
                    let close = expect(tokens, pos + 3 + fields.used, TokenView::RRound);
                    if close.result is Err {
                        fail(close.result->Err_0, 3 + fields.used + close.used)
                    } else {
                        done(ExpressionView::Object(list), 4 + fields.used)
                    }
                },
            }
        }
    }
}

} // verus!
