use vstd::prelude::*;
use crate::lexer::token::TokenView;
use super::grammar::{
    done, empty_call, ends_scope, enum_values, expect, fail, field_value, left, object_fields,
    parse_array, parse_enum, parse_expression, parse_literal, parse_object, parse_union,
    parse_zod, root_marker, skip_scope, string_chain, token_at, union_options,
};
use super::syntax_tree::{ExpressionView, SyntaxErrorView};

verus! {

/// The names of the productions, `coerce` among them.
pub open spec fn is_production(name: Seq<char>) -> bool {
    name == "object"@ || name == "array"@ || name == "literal"@ || name == "number"@ || name
        == "enum"@ || name == "string"@ || name == "boolean"@ || name == "any"@ || name
        == "union"@ || name == "coerce"@
}

/// The names that the grammar knows are different words.
pub proof fn lemma_names_differ()
    ensures
        "number"@ != "object"@,
        "number"@ != "array"@,
        "number"@ != "literal"@,
        "string"@ != "object"@,
        "string"@ != "array"@,
        "string"@ != "literal"@,
        "string"@ != "number"@,
        "string"@ != "enum"@,
        "boolean"@ != "object"@,
        "boolean"@ != "array"@,
        "boolean"@ != "literal"@,
        "boolean"@ != "number"@,
        "boolean"@ != "enum"@,
        "boolean"@ != "string"@,
        "any"@ != "object"@,
        "any"@ != "array"@,
        "any"@ != "literal"@,
        "any"@ != "number"@,
        "any"@ != "enum"@,
        "any"@ != "string"@,
        "any"@ != "boolean"@,
        "coerce"@ != "object"@,
        "coerce"@ != "array"@,
        "coerce"@ != "literal"@,
        "coerce"@ != "number"@,
        "coerce"@ != "enum"@,
        "coerce"@ != "string"@,
        "coerce"@ != "boolean"@,
        "coerce"@ != "any"@,
        "coerce"@ != "union"@,
{
    reveal_strlit("object");
    reveal_strlit("array");
    reveal_strlit("literal");
    reveal_strlit("number");
    reveal_strlit("enum");
    reveal_strlit("string");
    reveal_strlit("boolean");
    reveal_strlit("any");
    reveal_strlit("union");
    reveal_strlit("coerce");
    assert("object"@.len() == 6 && "array"@.len() == 5 && "literal"@.len() == 7);
    assert("number"@.len() == 6 && "enum"@.len() == 4 && "string"@.len() == 6);
    assert("boolean"@.len() == 7 && "any"@.len() == 3 && "union"@.len() == 5);
    assert("coerce"@.len() == 6);
    assert("number"@[0] != "object"@[0]);
    assert("string"@[0] != "object"@[0]);
    assert("string"@[0] != "number"@[0]);
    assert("boolean"@[0] != "object"@[0]);
    assert("boolean"@[0] != "number"@[0]);
    assert("boolean"@[0] != "string"@[0]);
    assert("coerce"@[0] != "object"@[0]);
    assert("coerce"@[0] != "number"@[0]);
    assert("coerce"@[0] != "string"@[0]);
}

/// Skipping stops within the tokens, at their end or at a token that ends
/// the scope, and passes over none that does.
pub proof fn lemma_skip_scope(tokens: Seq<TokenView>, pos: int)
    requires
        0 <= pos <= tokens.len(),
    ensures
        pos + skip_scope(tokens, pos) <= tokens.len(),
        token_at(tokens, pos + skip_scope(tokens, pos)) matches Some(token) ==> ends_scope(token),
        forall|i: int| pos <= i < pos + skip_scope(tokens, pos) ==> !ends_scope(#[trigger] tokens[i]),
    decreases left(tokens, pos),
{
    if pos < tokens.len() && !ends_scope(tokens[pos]) {
        lemma_skip_scope(tokens, pos + 1);
    }
}

/// The strings of an enum are read within the tokens, and where they are
/// read to the end, the last token read is the closing `]`.
pub proof fn lemma_enum_values(tokens: Seq<TokenView>, pos: int)
    requires
        0 <= pos <= tokens.len(),
    ensures
        pos + enum_values(tokens, pos).used <= tokens.len(),
        enum_values(tokens, pos).result is Ok ==> enum_values(tokens, pos).used >= 1 && token_at(
            tokens,
            pos + enum_values(tokens, pos).used - 1,
        ) == Some(TokenView::RSquare),
    decreases left(tokens, pos),
{
    if pos < tokens.len() {
        lemma_enum_values(tokens, pos + 1);
    }
}

/// The chain behind `string()` is read within the tokens.
pub proof fn lemma_string_chain(tokens: Seq<TokenView>, pos: int)
    requires
        0 <= pos <= tokens.len(),
    ensures
        pos + string_chain(tokens, pos).used <= tokens.len(),
    decreases left(tokens, pos),
{
    lemma_skip_scope(tokens, pos);
    if token_at(tokens, pos) == Some(TokenView::Dot) {
        lemma_skip_scope(tokens, pos + 1);
        if pos + 2 <= tokens.len() {
            lemma_string_chain(tokens, pos + 2);
        }
    }
}

/// A schema expression is read within the tokens, and one that is accepted
/// takes at least five of them: the root marker, a dot, a name and a call.
pub proof fn lemma_expression_within_tokens(tokens: Seq<TokenView>, pos: int)
    requires
        0 <= pos <= tokens.len(),
    ensures
        pos + parse_expression(tokens, pos).used <= tokens.len(),
        parse_expression(tokens, pos).result is Ok ==> parse_expression(tokens, pos).used >= 5,
    decreases left(tokens, pos), 1nat,
{
    if token_at(tokens, pos) == Some(root_marker()) {
        lemma_zod_within_tokens(tokens, pos);
    }
}

/// What follows the root marker is read within the tokens.
pub proof fn lemma_zod_within_tokens(tokens: Seq<TokenView>, pos: int)
    requires
        0 <= pos < tokens.len(),
    ensures
        pos + parse_zod(tokens, pos).used <= tokens.len(),
        parse_zod(tokens, pos).result is Ok ==> parse_zod(tokens, pos).used >= 5,
    decreases left(tokens, pos), 0nat,
{
    if expect(tokens, pos + 1, TokenView::Dot).result is Ok {
        if let Some(TokenView::Ident(name)) = token_at(tokens, pos + 2) {
            let at = pos + 2;
            if name == "object"@ {
                lemma_object_within_tokens(tokens, at);
            } else if name == "array"@ {
                lemma_array_within_tokens(tokens, at);
            } else if name == "literal"@ {
            } else if name == "number"@ {
                if empty_call(tokens, at).result is Ok {
                    lemma_skip_scope(tokens, at + 3);
                }
            } else if name == "enum"@ {
                if at + 3 <= tokens.len() {
                    lemma_enum_values(tokens, at + 3);
                    let used = enum_values(tokens, at + 3).used;
                    if at + 4 + used <= tokens.len() {
                        lemma_skip_scope(tokens, at + 4 + used);
                    }
                }
            } else if name == "string"@ {
                if empty_call(tokens, at).result is Ok {
                    lemma_string_chain(tokens, at + 3);
                }
            } else if name == "boolean"@ {
            } else if name == "any"@ {
            } else if name == "union"@ {
                lemma_union_within_tokens(tokens, at);
            } else if name == "coerce"@ {
                lemma_zod_within_tokens(tokens, at);
            }
        }
    }
}

/// The alternatives of a union are read within the tokens, and where they
/// are read to the end, the last token read is the closing `]`.
pub proof fn lemma_union_options(tokens: Seq<TokenView>, pos: int)
    requires
        0 <= pos <= tokens.len(),
    ensures
        pos + union_options(tokens, pos).used <= tokens.len(),
        union_options(tokens, pos).result is Ok ==> union_options(tokens, pos).used >= 1
            && token_at(tokens, pos + union_options(tokens, pos).used - 1) == Some(
            TokenView::RSquare,
        ),
    decreases left(tokens, pos), 2nat,
{
    lemma_expression_within_tokens(tokens, pos);
    let first = parse_expression(tokens, pos);
    if first.result is Ok && token_at(tokens, pos + first.used) == Some(TokenView::Comma) {
        lemma_union_options(tokens, pos + first.used + 1);
    }
}

/// A union is read within the tokens.
pub proof fn lemma_union_within_tokens(tokens: Seq<TokenView>, pos: int)
    requires
        0 <= pos < tokens.len(),
    ensures
        pos + parse_union(tokens, pos).used <= tokens.len(),
        parse_union(tokens, pos).result is Ok ==> parse_union(tokens, pos).used >= 3,
    decreases left(tokens, pos), 3nat,
{
    if pos + 3 <= tokens.len() {
        lemma_union_options(tokens, pos + 3);
        let used = union_options(tokens, pos + 3).used;
        if pos + 4 + used <= tokens.len() {
            lemma_skip_scope(tokens, pos + 4 + used);
        }
    }
}

/// An array is read within the tokens.
pub proof fn lemma_array_within_tokens(tokens: Seq<TokenView>, pos: int)
    requires
        0 <= pos < tokens.len(),
    ensures
        pos + parse_array(tokens, pos).used <= tokens.len(),
        parse_array(tokens, pos).result is Ok ==> parse_array(tokens, pos).used >= 3,
    decreases left(tokens, pos), 3nat,
{
    if pos + 2 <= tokens.len() {
        lemma_expression_within_tokens(tokens, pos + 2);
        lemma_skip_scope(tokens, pos + 2 + parse_expression(tokens, pos + 2).used);
    }
}

/// The value of a field is read within the tokens.
pub proof fn lemma_field_value(tokens: Seq<TokenView>, pos: int)
    requires
        0 <= pos <= tokens.len(),
    ensures
        pos + field_value(tokens, pos).used <= tokens.len(),
    decreases left(tokens, pos), 2nat,
{
    if pos < tokens.len() {
        lemma_expression_within_tokens(tokens, pos + 1);
    }
}

/// The fields of an object are read within the tokens, and where they are
/// read to the end, the last token read is the closing `}`.
pub proof fn lemma_object_fields(tokens: Seq<TokenView>, pos: int)
    requires
        0 <= pos <= tokens.len(),
    ensures
        pos + object_fields(tokens, pos).used <= tokens.len(),
        object_fields(tokens, pos).result is Ok ==> object_fields(tokens, pos).used >= 1
            && token_at(tokens, pos + object_fields(tokens, pos).used - 1) == Some(
            TokenView::RCurly,
        ),
    decreases left(tokens, pos), 2nat,
{
    match token_at(tokens, pos) {
        Some(TokenView::RRound) => {
            lemma_object_fields(tokens, pos + 1);
        },
        Some(TokenView::Comma) => {
            lemma_object_fields(tokens, pos + 1);
        },
        Some(TokenView::Ident(name)) => {
            lemma_field_value(tokens, pos + 1);
            let value = field_value(tokens, pos + 1);
            if value.result is Ok {
                lemma_object_fields(tokens, pos + 1 + value.used);
            }
        },
        _ => {},
    }
}

/// An object is read within the tokens.
pub proof fn lemma_object_within_tokens(tokens: Seq<TokenView>, pos: int)
    requires
        0 <= pos < tokens.len(),
    ensures
        pos + parse_object(tokens, pos).used <= tokens.len(),
        parse_object(tokens, pos).result is Ok ==> parse_object(tokens, pos).used >= 3,
    decreases left(tokens, pos), 3nat,
{
    if pos + 3 <= tokens.len() {
        lemma_object_fields(tokens, pos + 3);
    }
}

/// `coerce` changes nothing: the expression is the one that stands behind
/// it.
pub proof fn lemma_coerce_is_transparent(tokens: Seq<TokenView>, pos: int)
    requires
        token_at(tokens, pos + 1) == Some(TokenView::Dot),
        token_at(tokens, pos + 2) == Some(TokenView::Ident("coerce"@)),
    ensures
        parse_zod(tokens, pos).result == parse_zod(tokens, pos + 2).result,
        parse_zod(tokens, pos).used == 2 + parse_zod(tokens, pos + 2).used,
{
    lemma_names_differ();
}

/// A chain of modifiers from `pos` on that does not decide the kind of a
/// string: as long as dots follow, each has a name behind it, and none of
/// these names is `email` or `uuid`.
pub open spec fn is_plain_chain(tokens: Seq<TokenView>, pos: int) -> bool
    decreases left(tokens, pos),
{
    if token_at(tokens, pos) == Some(TokenView::Dot) {
        match token_at(tokens, pos + 1) {
            Some(TokenView::Ident(name)) => name != "email"@ && name != "uuid"@ && is_plain_chain(
                tokens,
                pos + 2,
            ),
            _ => false,
        }
    } else {
        true
    }
}

/// Behind `string()`, a chain that does not decide the kind leaves a plain
/// string.
pub proof fn lemma_plain_chain_is_string(tokens: Seq<TokenView>, pos: int)
    requires
        is_plain_chain(tokens, pos),
    ensures
        string_chain(tokens, pos).result == Ok::<ExpressionView, SyntaxErrorView>(
            ExpressionView::String,
        ),
    decreases left(tokens, pos),
{
    if token_at(tokens, pos) == Some(TokenView::Dot) {
        lemma_plain_chain_is_string(tokens, pos + 2);
    }
}

/// Behind the root marker an expression is what `parse_zod` reads there.
pub proof fn lemma_rooted_expression(tokens: Seq<TokenView>, pos: int)
    requires
        token_at(tokens, pos) == Some(root_marker()),
    ensures
        parse_expression(tokens, pos) == parse_zod(tokens, pos),
{
}

/// What follows a primitive that is complete never changes it: after the
/// root marker or a `coerce`, a dot, the name and `()`, the expression is a
/// number, a boolean or an any whatever tokens come next, and a string
/// wherever the chain behind it does not decide otherwise. A string with
/// `.email` or `.uuid` right behind it is an email or a UUID whatever comes
/// after that. A number and a string take what follows them up to the end of
/// their scope.
pub proof fn lemma_modifiers_change_no_primitive(
    tokens: Seq<TokenView>,
    pos: int,
    name: Seq<char>,
)
    requires
        token_at(tokens, pos + 1) == Some(TokenView::Dot),
        token_at(tokens, pos + 2) == Some(TokenView::Ident(name)),
        token_at(tokens, pos + 3) == Some(TokenView::LRound),
        token_at(tokens, pos + 4) == Some(TokenView::RRound),
    ensures
        name == "number"@ ==> parse_zod(tokens, pos) == done(
            ExpressionView::Number,
            5 + skip_scope(tokens, pos + 5),
        ),
        name == "boolean"@ ==> parse_zod(tokens, pos) == done(ExpressionView::Boolean, 5),
        name == "any"@ ==> parse_zod(tokens, pos) == done(ExpressionView::Any, 5),
        name == "string"@ && is_plain_chain(tokens, pos + 5) ==> parse_zod(tokens, pos) == done(
            ExpressionView::String,
            5 + string_chain(tokens, pos + 5).used,
        ),
        name == "string"@ && token_at(tokens, pos + 5) == Some(TokenView::Dot) && token_at(
            tokens,
            pos + 6,
        ) == Some(TokenView::Ident("email"@)) ==> parse_zod(tokens, pos) == done(
            ExpressionView::Email,
            6 + skip_scope(tokens, pos + 6),
        ),
        name == "string"@ && token_at(tokens, pos + 5) == Some(TokenView::Dot) && token_at(
            tokens,
            pos + 6,
        ) == Some(TokenView::Ident("uuid"@)) ==> parse_zod(tokens, pos) == done(
            ExpressionView::UUID,
            6 + skip_scope(tokens, pos + 6),
        ),
{
    lemma_names_differ();
    if name == "string"@ && is_plain_chain(tokens, pos + 5) {
        lemma_plain_chain_is_string(tokens, pos + 5);
    }
    assert("uuid"@ != "email"@) by {
        reveal_strlit("uuid");
        reveal_strlit("email");
        assert("uuid"@.len() == 4 && "email"@.len() == 5);
    }
}

/// What is skipped behind an array, an enum or a union is no part of it:
/// an array that is accepted is the array of its item, an enum the enum of
/// the strings between its brackets, and a union the union of the
/// alternatives between its brackets.
pub proof fn lemma_skipping_changes_no_value(tokens: Seq<TokenView>, pos: int)
    ensures
        parse_array(tokens, pos).result is Ok ==> parse_expression(tokens, pos + 2).result is Ok
            && parse_array(tokens, pos).result->Ok_0 == ExpressionView::Array(
            Box::new(parse_expression(tokens, pos + 2).result->Ok_0),
        ),
        parse_enum(tokens, pos).result is Ok ==> enum_values(tokens, pos + 3).result is Ok
            && parse_enum(tokens, pos).result->Ok_0 == ExpressionView::Enum(
            enum_values(tokens, pos + 3).result->Ok_0,
        ),
        parse_union(tokens, pos).result is Ok ==> union_options(tokens, pos + 3).result is Ok
            && parse_union(tokens, pos).result->Ok_0 == ExpressionView::Union(
            union_options(tokens, pos + 3).result->Ok_0,
        ),
{
}

/// The fields of an object are those of its source in the order in which
/// they stand there, and none is left out for its name: a field that is read
/// stands before all the fields that are read behind it.
pub proof fn lemma_fields_follow_the_source(tokens: Seq<TokenView>, pos: int, name: Seq<char>)
    requires
        token_at(tokens, pos) == Some(TokenView::Ident(name)),
        field_value(tokens, pos + 1).result is Ok,
        object_fields(tokens, pos + 1 + field_value(tokens, pos + 1).used).result is Ok,
    ensures
        object_fields(tokens, pos).result == Ok::<
            Seq<(Seq<char>, ExpressionView)>,
            SyntaxErrorView,
        >(
            seq![(name, field_value(tokens, pos + 1).result->Ok_0)] + object_fields(
                tokens,
                pos + 1 + field_value(tokens, pos + 1).used,
            ).result->Ok_0,
        ),
{
}

/// A name behind the root marker, or behind a `coerce`, that is not the name
/// of a production is refused.
pub proof fn lemma_unknown_name_is_refused(tokens: Seq<TokenView>, pos: int, name: Seq<char>)
    requires
        token_at(tokens, pos + 1) == Some(TokenView::Dot),
        token_at(tokens, pos + 2) == Some(TokenView::Ident(name)),
        !is_production(name),
    ensures
        parse_zod(tokens, pos) == fail::<ExpressionView>(
            SyntaxErrorView::InvalidIdentifier(name),
            2,
        ),
        token_at(tokens, pos) == Some(root_marker()) ==> parse_expression(tokens, pos)
            == parse_zod(tokens, pos),
{
}

/// Where the tokens end before an expression starts, there is none.
pub proof fn lemma_no_tokens_no_expression(tokens: Seq<TokenView>, pos: int)
    requires
        pos >= tokens.len(),
    ensures
        parse_expression(tokens, pos) == fail::<ExpressionView>(
            SyntaxErrorView::UnexpectedEndOfFile,
            0,
        ),
{
}

/// An expression that does not start with the root marker is refused.
pub proof fn lemma_root_marker_is_needed(tokens: Seq<TokenView>, pos: int)
    requires
        token_at(tokens, pos) matches Some(found) && found != root_marker(),
    ensures
        parse_expression(tokens, pos) == fail::<ExpressionView>(
            SyntaxErrorView::UnexpectedToken(root_marker(), tokens[pos]),
            0,
        ),
{
}

/// An error inside is the error outside: where the item of an array, an
/// alternative of a union or the value of a field is refused, the array, the
/// union or the object is refused for the same reason, and nothing of it is
/// kept.
pub proof fn lemma_errors_reach_the_caller(tokens: Seq<TokenView>, pos: int)
    ensures
        ({
            let item = parse_expression(tokens, pos + 2);
            token_at(tokens, pos + 1) == Some(TokenView::LRound) && item.result is Err
                ==> parse_array(tokens, pos).result == item.result
        }),
        ({
            let option = parse_expression(tokens, pos);
            let options = union_options(tokens, pos);
            option.result is Err ==> options.result is Err && options.result->Err_0
                == option.result->Err_0
        }),
        ({
            let options = union_options(tokens, pos + 3);
            let union = parse_union(tokens, pos);
            token_at(tokens, pos + 1) == Some(TokenView::LRound) && token_at(tokens, pos + 2)
                == Some(TokenView::LSquare) && options.result is Err ==> union.result is Err
                && union.result->Err_0 == options.result->Err_0
        }),
        ({
            let value = field_value(tokens, pos + 1);
            let fields = object_fields(tokens, pos);
            token_at(tokens, pos) is Some && token_at(tokens, pos)->0 is Ident && value.result is Err
                ==> fields.result is Err && fields.result->Err_0 == value.result->Err_0
        }),
        ({
            let fields = object_fields(tokens, pos + 3);
            let object = parse_object(tokens, pos);
            token_at(tokens, pos + 1) == Some(TokenView::LRound) && token_at(tokens, pos + 2)
                == Some(TokenView::LCurly) && fields.result is Err ==> object.result is Err
                && object.result->Err_0 == fields.result->Err_0
        }),
{
}

/// A call is accepted only with its punctuation in place: the `(` behind
/// the name; the `)` of a call without arguments and of a literal; the `[`,
/// `]` and `)` of an enum and of a union; the `{`, `}` and `)` of an object.
/// An array asks for its `(` alone: what closes it is skipped with the rest
/// of its scope.
pub proof fn lemma_accepted_call_is_closed(tokens: Seq<TokenView>, pos: int)
    requires
        0 <= pos < tokens.len(),
    ensures
        empty_call(tokens, pos).result is Ok ==> {
            &&& token_at(tokens, pos + 1) == Some(TokenView::LRound)
            &&& token_at(tokens, pos + 2) == Some(TokenView::RRound)
        },
        parse_literal(tokens, pos).result is Ok ==> {
            &&& token_at(tokens, pos + 1) == Some(TokenView::LRound)
            &&& token_at(tokens, pos + 2) is Some
            &&& token_at(tokens, pos + 2)->0 is Str
            &&& token_at(tokens, pos + 3) == Some(TokenView::RRound)
        },
        parse_array(tokens, pos).result is Ok ==> token_at(tokens, pos + 1) == Some(
            TokenView::LRound,
        ),
        parse_enum(tokens, pos).result is Ok ==> {
            let inner = enum_values(tokens, pos + 3).used;
            &&& token_at(tokens, pos + 1) == Some(TokenView::LRound)
            &&& token_at(tokens, pos + 2) == Some(TokenView::LSquare)
            &&& token_at(tokens, pos + 2 + inner) == Some(TokenView::RSquare)
            &&& token_at(tokens, pos + 3 + inner) == Some(TokenView::RRound)
        },
        parse_union(tokens, pos).result is Ok ==> {
            let inner = union_options(tokens, pos + 3).used;
            &&& token_at(tokens, pos + 1) == Some(TokenView::LRound)
            &&& token_at(tokens, pos + 2) == Some(TokenView::LSquare)
            &&& token_at(tokens, pos + 2 + inner) == Some(TokenView::RSquare)
            &&& token_at(tokens, pos + 3 + inner) == Some(TokenView::RRound)
        },
        parse_object(tokens, pos).result is Ok ==> {
            let used = parse_object(tokens, pos).used;
            &&& token_at(tokens, pos + 1) == Some(TokenView::LRound)
            &&& token_at(tokens, pos + 2) == Some(TokenView::LCurly)
            &&& token_at(tokens, pos + used - 2) == Some(TokenView::RCurly)
            &&& token_at(tokens, pos + used - 1) == Some(TokenView::RRound)
        },
{
    if pos + 3 <= tokens.len() {
        lemma_enum_values(tokens, pos + 3);
        lemma_union_options(tokens, pos + 3);
        lemma_object_fields(tokens, pos + 3);
    }
}

} // verus!
