use vstd::prelude::*;
use vstd::string::StringExecFns;
use crate::lexer::lexer::{lemma_next_token_advances, tokens_from, tokens_of, Lexer};
use crate::lexer::token::{Token, TokenView};
use crate::syntax_tree::grammar::{parse_expression, parse_zod, root_marker, token_at};
use crate::syntax_tree::grammar_lemmas::{
    is_plain_chain, lemma_modifiers_change_no_primitive, lemma_names_differ,
};
use crate::syntax_tree::syntax_tree::{
    field_trees, ExpressionView, SyntaxError, SyntaxErrorView, SyntaxTree, ZodExpression,
};

verus! {

/// What a schema source stands for: the expression at the start of its
/// tokens, or the reason why there is none.
pub open spec fn schema_of(source: Seq<char>) -> Result<ExpressionView, SyntaxErrorView> {
    parse_expression(tokens_of(source), 0).result
}

/// `parts` in a row, with `separator` between each two of them.
pub open spec fn join(parts: Seq<Seq<char>>, separator: Seq<char>) -> Seq<char>
    decreases parts.len(),
{
    if parts.len() == 0 {
        Seq::empty()
    } else if parts.len() == 1 {
        parts[0]
    } else {
        join(parts.drop_last(), separator) + separator + parts.last()
    }
}

/// `text` between two double quotes, as it is.
pub open spec fn quoted(text: Seq<char>) -> Seq<char> {
    seq!['"'] + text + seq!['"']
}

/// One member of a JSON object: the quoted name, a colon, a space and the
/// value.
pub open spec fn member(name: Seq<char>, value: Seq<char>) -> Seq<char> {
    quoted(name) + seq![':', ' '] + value
}

impl ExpressionView {
    /// An example can be written for this schema: on the way to it no enum
    /// and no union is empty.
    pub open spec fn renderable(self) -> bool
        decreases self,
    {
        match self {
            ExpressionView::Object(fields) => forall|i: int|
                0 <= i < fields.len() ==> (#[trigger] fields[i]).1.renderable(),
            ExpressionView::Array(item) => item.renderable(),
            ExpressionView::Enum(values) => values.len() > 0,
            ExpressionView::Union(options) => options.len() > 0 && options[0].renderable(),
            _ => true,
        }
    }

    /// The members of an object written out, in the order of its fields;
    /// of anything else, nothing.
    pub open spec fn member_texts(self) -> Seq<Seq<char>>
        decreases self, 0nat,
    {
        match self {
            ExpressionView::Object(fields) => Seq::new(
                fields.len(),
                |i: int|
                    if 0 <= i < fields.len() {
                        member(fields[i].0, fields[i].1.render())
                    } else {
                        Seq::empty()
                    },
            ),
            _ => Seq::empty(),
        }
    }

    /// The JSON example of this schema. Of an enum and of a union it shows
    /// the first alternative; where there is none, nothing is written.
    pub open spec fn render(self) -> Seq<char>
        recommends
            self.renderable(),
        decreases self, 1nat,
    {
        match self {
            ExpressionView::Object(_) => seq!['{'] + join(self.member_texts(), seq![',', ' '])
                + seq!['}'],
            ExpressionView::Array(item) => seq!['['] + item.render() + seq![']'],
            ExpressionView::Literal(value) => quoted(value),
            ExpressionView::Number => "1"@,
            ExpressionView::UUID => "\"aa5ac446-7e1d-11ee-b962-0242ac120002\""@,
            ExpressionView::String => "\"string\""@,
            ExpressionView::Boolean => "true"@,
            ExpressionView::Email => "\"admin@admin.com\""@,
            ExpressionView::Any => "{}"@,
            ExpressionView::Enum(values) => if values.len() > 0 {
                quoted(values[0])
            } else {
                Seq::empty()
            },
            ExpressionView::Union(options) => if options.len() > 0 {
                options[0].render()
            } else {
                Seq::empty()
            },
        }
    }
}

/// The tokens of `schema`, without the end of input.
pub fn tokenize(schema: &str) -> (tokens: Vec<Token>)
    ensures
        tokens.deep_view() == tokens_of(schema@),
{
    let mut lx = Lexer::new(schema);
    let mut tokens: Vec<Token> = Vec::new();
    proof {
        assert(tokens.deep_view() + tokens_from(schema@, 0) =~= tokens_of(schema@));
    }
    loop
        invariant_except_break
            tokens.deep_view() + tokens_from(schema@, lx.position()) == tokens_of(schema@),
        invariant
            lx.source() == schema@,
            0 <= lx.position() <= schema@.len(),
        ensures
            tokens.deep_view() == tokens_of(schema@),
        decreases schema@.len() - lx.position(),
    {
        let ghost before = tokens.deep_view();
        let ghost at = lx.position();
        proof {
            lemma_next_token_advances(schema@, at);
        }
        let token = lx.next();
        if token == Token::Eof {
            proof {
                assert(before + Seq::<TokenView>::empty() =~= before);
            }
            break;
        }
        tokens.push(token);
        proof {
            assert(tokens.deep_view() =~= before + seq![token@]);
            assert(before + (seq![token@] + tokens_from(schema@, lx.position())) =~= (before
                + seq![token@]) + tokens_from(schema@, lx.position()));
        }
    }
    tokens
}

/// The expression that `schema` stands for, or the reason why it stands for
/// none.
pub fn parse_schema(schema: &str) -> (res: Result<ZodExpression, SyntaxError>)
    ensures
        match res {
            Ok(expression) => schema_of(schema@) == Ok::<ExpressionView, SyntaxErrorView>(
                expression@,
            ),
            Err(error) => schema_of(schema@) == Err::<ExpressionView, SyntaxErrorView>(error@),
        },
{
    let tokens = tokenize(schema);
    let mut tree = SyntaxTree::new(tokens);
    tree.try_parse()
}

/// The expression that `schema` stands for; `None` where it stands for
/// none.
pub fn get_syntax_tree(schema: &str) -> (res: Option<ZodExpression>)
    ensures
        match res {
            Some(expression) => schema_of(schema@) == Ok::<ExpressionView, SyntaxErrorView>(
                expression@,
            ),
            None => schema_of(schema@) is Err,
        },
{
    match parse_schema(schema) {
        Ok(expression) => Some(expression),
        Err(_) => None,
    }
}

/// The members of an object, each written out, in the order of the fields.
pub open spec fn members(fields: Seq<(Seq<char>, ExpressionView)>) -> Seq<Seq<char>> {
    Seq::new(fields.len(), |i: int| member(fields[i].0, fields[i].1.render()))
}

/// An object is written as its members in a row, between braces.
pub proof fn lemma_render_object(fields: Seq<(Seq<char>, ExpressionView)>)
    ensures
        ExpressionView::Object(fields).render() == seq!['{'] + join(
            members(fields),
            seq![',', ' '],
        ) + seq!['}'],
{
    assert(ExpressionView::Object(fields).member_texts() =~= members(fields));
}

/// The members of two lists of fields, one after the other, are the members
/// of the first list followed by those of the second.
pub proof fn lemma_members_concat(
    first: Seq<(Seq<char>, ExpressionView)>,
    second: Seq<(Seq<char>, ExpressionView)>,
)
    ensures
        members(first + second) == members(first) + members(second),
{
    assert(members(first + second) =~= members(first) + members(second));
}

/// Joining two lists that are not empty is joining each and putting one
/// separator between them.
pub proof fn lemma_join_concat(first: Seq<Seq<char>>, second: Seq<Seq<char>>, separator: Seq<char>)
    requires
        first.len() > 0,
        second.len() > 0,
    ensures
        join(first + second, separator) == join(first, separator) + separator + join(
            second,
            separator,
        ),
    decreases second.len(),
{
    let whole = first + second;
    assert(whole.last() == second.last());
    if second.len() == 1 {
        assert(whole.drop_last() =~= first);
    } else {
        assert(whole.drop_last() =~= first + second.drop_last());
        lemma_join_concat(first, second.drop_last(), separator);
        assert(join(first, separator) + separator + join(second.drop_last(), separator)
            + separator + second.last() =~= join(first, separator) + separator + (join(
            second.drop_last(),
            separator,
        ) + separator + second.last()));
    }
}

/// An object shows its fields in their order, each one of them, whatever
/// their names: the example of two lists of fields, one after the other, is
/// the members of the first, a separator, and the members of the second.
pub proof fn lemma_object_keeps_field_order(
    first: Seq<(Seq<char>, ExpressionView)>,
    second: Seq<(Seq<char>, ExpressionView)>,
)
    requires
        first.len() > 0,
        second.len() > 0,
    ensures
        ExpressionView::Object(first + second).render() == seq!['{'] + join(
            members(first),
            seq![',', ' '],
        ) + seq![',', ' '] + join(members(second), seq![',', ' ']) + seq!['}'],
{
    lemma_render_object(first + second);
    lemma_members_concat(first, second);
    lemma_join_concat(members(first), members(second), seq![',', ' ']);
    let a = join(members(first), seq![',', ' ']);
    let b = join(members(second), seq![',', ' ']);
    assert(seq!['{'] + (a + seq![',', ' '] + b) + seq!['}'] =~= seq!['{'] + a + seq![',', ' '] + b
        + seq!['}']);
}

/// An object with one field shows that field between braces.
pub proof fn lemma_render_single_field(name: Seq<char>, value: ExpressionView)
    ensures
        ExpressionView::Object(seq![(name, value)]).render() == seq!['{'] + quoted(name) + seq![
            ':',
            ' ',
        ] + value.render() + seq!['}'],
{
    lemma_render_object(seq![(name, value)]);
    assert(seq!['{'] + (quoted(name) + seq![':', ' '] + value.render()) + seq!['}'] =~= seq!['{']
        + quoted(name) + seq![':', ' '] + value.render() + seq!['}']);
}

/// An array shows exactly one element, the example of its item.
pub proof fn lemma_array_shows_one_element(item: ExpressionView)
    ensures
        ExpressionView::Array(Box::new(item)).render() == seq!['['] + item.render() + seq![']'],
{
}

/// A union shows its first alternative and an enum its first value,
/// whatever comes after them.
pub proof fn lemma_first_alternative_is_shown(
    option: ExpressionView,
    other_options: Seq<ExpressionView>,
    value: Seq<char>,
    other_values: Seq<Seq<char>>,
)
    ensures
        ExpressionView::Union(seq![option] + other_options).render() == option.render(),
        ExpressionView::Enum(seq![value] + other_values).render() == quoted(value),
{
}

/// Whether `to_json` can write an example for `zod`.
pub fn is_renderable(zod: &ZodExpression) -> (yes: bool)
    ensures
        yes == zod@.renderable(),
    decreases zod,
{
    match zod {
        ZodExpression::Object(obj) => {
            let mut i: usize = 0;
            while i < obj.len()
                invariant
                    i <= obj.len(),
                    zod == ZodExpression::Object(*obj),
                    forall|k: int| 0 <= k < i ==> (#[trigger] obj@[k]).1@.renderable(),
                decreases obj.len() - i,
            {
                if !is_renderable(&obj[i].1) {
                    assert(!zod@->Object_0[i as int].1.renderable());
                    return false;
                }
                i = i + 1;
            }
            assert forall|k: int| 0 <= k < zod@->Object_0.len() implies (
            #[trigger] zod@->Object_0[k]).1.renderable() by {
                assert(obj@[k].1@.renderable());
            }
            true
        },
        ZodExpression::Array(array) => is_renderable(array),
        ZodExpression::Enum(e) => e.len() > 0,
        ZodExpression::Union(u) => u.len() > 0 && is_renderable(&u[0]),
        _ => true,
    }
}

/// The JSON example of `zod`.
pub fn to_json(zod: &ZodExpression) -> (json: String)
    requires
        zod@.renderable(),
    ensures
        json@ == zod@.render(),
    decreases zod,
{
    match zod {
        ZodExpression::Object(obj) => {
            let mut json = String::new();
            json.push('{');
            let ghost fields = zod@->Object_0;
            let ghost parts = members(fields);
            proof {
                lemma_render_object(fields);
                assert(fields =~= field_trees(obj@));
                assert(json@ =~= seq!['{'] + join(parts.take(0), seq![',', ' ']));
            }
            let mut i: usize = 0;
            while i < obj.len()
                invariant
                    i <= obj.len(),
                    zod == ZodExpression::Object(*obj),
                    zod@.renderable(),
                    fields == field_trees(obj@),
                    fields == zod@->Object_0,
                    parts == members(fields),
                    json@ == seq!['{'] + join(parts.take(i as int), seq![',', ' ']),
                decreases obj.len() - i,
            {
                let ghost so_far = join(parts.take(i as int), seq![',', ' ']);
                if i > 0 {
                    json.append(", ");
                }
                json.push('"');
                json.append(obj[i].0.as_str());
                json.append("\": ");
                assert(fields[i as int].1.renderable());
                let value = to_json(&obj[i].1);
                json.append(value.as_str());
                proof {
                    reveal_strlit(", ");
                    reveal_strlit("\": ");
                    assert(", "@ =~= seq![',', ' ']);
                    assert("\": "@ =~= seq!['"', ':', ' ']);
                    let part = parts[i as int];
                    assert(part == member(obj@[i as int].0@, value@));
                    assert(seq!['"'] + obj@[i as int].0@ + seq!['"', ':', ' '] + value@ =~= part);
                    let next = parts.take(i + 1);
                    assert(next.drop_last() =~= parts.take(i as int));
                    assert(next.last() == part);
                    if i == 0 {
                        assert(so_far =~= Seq::<char>::empty());
                        assert(json@ =~= seq!['{'] + join(next, seq![',', ' ']));
                    } else {
                        assert(join(next, seq![',', ' ']) == so_far + seq![',', ' '] + part);
                        assert(json@ =~= seq!['{'] + join(next, seq![',', ' ']));
                    }
                }
                i = i + 1;
            }
            proof {
                assert(parts.take(obj.len() as int) =~= parts);
            }
            json.push('}');
            json
        },
        ZodExpression::Number => "1".to_string(),
        ZodExpression::String => "\"string\"".to_string(),
        ZodExpression::UUID => "\"aa5ac446-7e1d-11ee-b962-0242ac120002\"".to_string(),
        ZodExpression::Boolean => "true".to_string(),
        ZodExpression::Array(array) => {
            let mut json = String::new();
            json.push('[');
            let item = to_json(array);
            json.append(item.as_str());
            json.push(']');
            json
        },
        ZodExpression::Literal(l) => quote(l.as_str()),
        ZodExpression::Email => "\"admin@admin.com\"".to_string(),
        ZodExpression::Any => "{}".to_string(),
        ZodExpression::Enum(e) => quote(e[0].as_str()),
        ZodExpression::Union(u) => to_json(&u[0]),
    }
}

fn quote(text: &str) -> (json: String)
    ensures
        json@ == quoted(text@),
{
    let mut json = String::new();
    json.push('"');
    json.append(text);
    json.push('"');
    json
}

/// What follows a primitive that is complete never changes its example:
/// after the root marker, with or without `coerce`, a number shows `1`, a
/// boolean `true` and an any `{}` whatever tokens come next, and a string
/// shows `"string"` wherever the chain behind it does not decide otherwise.
pub proof fn lemma_modifiers_change_no_example(tokens: Seq<TokenView>, pos: int, name: Seq<char>)
    requires
        token_at(tokens, pos + 1) == Some(TokenView::Dot),
        token_at(tokens, pos + 2) == Some(TokenView::Ident(name)),
        token_at(tokens, pos + 3) == Some(TokenView::LRound),
        token_at(tokens, pos + 4) == Some(TokenView::RRound),
        name == "number"@ || name == "boolean"@ || name == "any"@ || (name == "string"@
            && is_plain_chain(tokens, pos + 5)),
    ensures
        parse_zod(tokens, pos).result is Ok,
        parse_zod(tokens, pos).result->Ok_0.renderable(),
        name == "number"@ ==> parse_zod(tokens, pos).result->Ok_0.render() == "1"@,
        name == "boolean"@ ==> parse_zod(tokens, pos).result->Ok_0.render() == "true"@,
        name == "any"@ ==> parse_zod(tokens, pos).result->Ok_0.render() == "{}"@,
        name == "string"@ ==> parse_zod(tokens, pos).result->Ok_0.render() == "\"string\""@,
        token_at(tokens, pos) == Some(root_marker()) ==> parse_expression(tokens, pos)
            == parse_zod(tokens, pos),
        token_at(tokens, pos - 1) == Some(TokenView::Dot) && token_at(tokens, pos) == Some(
            TokenView::Ident("coerce"@),
        ) ==> parse_zod(tokens, pos - 2).result == parse_zod(tokens, pos).result,
{
    lemma_modifiers_change_no_primitive(tokens, pos, name);
    lemma_names_differ();
}

/// Two runs on the same source end alike: both fail, or both give an
/// expression with the same tree, and then both write the same example.
pub proof fn lemma_same_source_same_example(
    schema: &str,
    first: Option<ZodExpression>,
    second: Option<ZodExpression>,
    first_json: String,
    second_json: String,
)
    requires
        call_ensures(get_syntax_tree, (schema,), first),
        call_ensures(get_syntax_tree, (schema,), second),
        first matches Some(tree) ==> call_ensures(to_json, (&tree,), first_json),
        second matches Some(tree) ==> call_ensures(to_json, (&tree,), second_json),
    ensures
        first is Some <==> second is Some,
        first is Some ==> first->0@ == second->0@ && first_json@ == second_json@,
{
}

} // verus!
