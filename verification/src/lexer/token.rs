use vstd::prelude::*;
use vstd::std_specs::cmp::PartialEqSpecImpl;
use vstd::std_specs::convert::FromSpecImpl;
use super::chars::{is_digit_char, is_int_part};

verus! {

/// One lexical unit of a schema source.
#[derive(Debug)]
pub enum Token {
    Illegal,
    Eof,
    Ident(String),
    Int(String),
    Comma,
    LRound,
    RRound,
    LCurly,
    RCurly,
    LSquare,
    RSquare,
    True,
    False,
    Str(String),
    Dot,
    Colon,
}

/// The mathematical value of a [`Token`]: the same variants, with the text
/// payloads as sequences of characters.
pub ghost enum TokenView {
    Illegal,
    Eof,
    Ident(Seq<char>),
    Int(Seq<char>),
    Comma,
    LRound,
    RRound,
    LCurly,
    RCurly,
    LSquare,
    RSquare,
    True,
    False,
    Str(Seq<char>),
    Dot,
    Colon,
}

impl View for Token {
    type V = TokenView;

    open spec fn view(&self) -> TokenView {
        match self {
            Token::Illegal => TokenView::Illegal,
            Token::Eof => TokenView::Eof,
            Token::Ident(s) => TokenView::Ident(s@),
            Token::Int(s) => TokenView::Int(s@),
            Token::Comma => TokenView::Comma,
            Token::LRound => TokenView::LRound,
            Token::RRound => TokenView::RRound,
            Token::LCurly => TokenView::LCurly,
            Token::RCurly => TokenView::RCurly,
            Token::LSquare => TokenView::LSquare,
            Token::RSquare => TokenView::RSquare,
            Token::True => TokenView::True,
            Token::False => TokenView::False,
            Token::Str(s) => TokenView::Str(s@),
            Token::Dot => TokenView::Dot,
            Token::Colon => TokenView::Colon,
        }
    }
}

impl TokenView {
    /// The token as it is written in a schema source; of a string, its
    /// contents.
    pub open spec fn text(self) -> Seq<char> {
        match self {
            TokenView::Illegal => ""@,
            TokenView::Eof => "\0"@,
            TokenView::Ident(value) => value,
            TokenView::Int(value) => value,
            TokenView::Str(value) => value,
            TokenView::Comma => ","@,
            TokenView::LRound => "("@,
            TokenView::RRound => ")"@,
            TokenView::LCurly => "{"@,
            TokenView::RCurly => "}"@,
            TokenView::LSquare => "["@,
            TokenView::RSquare => "]"@,
            TokenView::True => "true"@,
            TokenView::False => "false"@,
            TokenView::Dot => "."@,
            TokenView::Colon => ":"@,
        }
    }
}

impl Token {
    /// The token as it is written in a schema source; of a string, its
    /// contents.
    pub fn to_string(&self) -> (text: String)
        ensures
            text@ == self@.text(),
    {
        match self {
            Token::Illegal => "".to_string(),
            Token::Eof => "\0".to_string(),
            Token::Ident(value) => value.clone(),
            Token::Int(value) => value.clone(),
            Token::Str(value) => value.clone(),
            Token::Comma => ",".to_string(),
            Token::LRound => "(".to_string(),
            Token::RRound => ")".to_string(),
            Token::LCurly => "{".to_string(),
            Token::RCurly => "}".to_string(),
            Token::LSquare => "[".to_string(),
            Token::RSquare => "]".to_string(),
            Token::True => "true".to_string(),
            Token::False => "false".to_string(),
            Token::Dot => ".".to_string(),
            Token::Colon => ":".to_string(),
        }
    }
}

impl DeepView for Token {
    type V = TokenView;

    open spec fn deep_view(&self) -> TokenView {
        self@
    }
}

impl Clone for Token {
    fn clone(&self) -> (res: Self)
        ensures
            res@ == self@,
    {
        match self {
            Token::Illegal => Token::Illegal,
            Token::Eof => Token::Eof,
            Token::Ident(s) => Token::Ident(s.clone()),
            Token::Int(s) => Token::Int(s.clone()),
            Token::Comma => Token::Comma,
            Token::LRound => Token::LRound,
            Token::RRound => Token::RRound,
            Token::LCurly => Token::LCurly,
            Token::RCurly => Token::RCurly,
            Token::LSquare => Token::LSquare,
            Token::RSquare => Token::RSquare,
            Token::True => Token::True,
            Token::False => Token::False,
            Token::Str(s) => Token::Str(s.clone()),
            Token::Dot => Token::Dot,
            Token::Colon => Token::Colon,
        }
    }
}

impl PartialEq for Token {
    fn eq(&self, other: &Token) -> (res: bool) {
        match (self, other) {
            (Token::Illegal, Token::Illegal) => true,
            (Token::Eof, Token::Eof) => true,
            (Token::Ident(a), Token::Ident(b)) => String::eq(a, b),
            (Token::Int(a), Token::Int(b)) => String::eq(a, b),
            (Token::Comma, Token::Comma) => true,
            (Token::LRound, Token::LRound) => true,
            (Token::RRound, Token::RRound) => true,
            (Token::LCurly, Token::LCurly) => true,
            (Token::RCurly, Token::RCurly) => true,
            (Token::LSquare, Token::LSquare) => true,
            (Token::RSquare, Token::RSquare) => true,
            (Token::True, Token::True) => true,
            (Token::False, Token::False) => true,
            (Token::Str(a), Token::Str(b)) => String::eq(a, b),
            (Token::Dot, Token::Dot) => true,
            (Token::Colon, Token::Colon) => true,
            _ => false,
        }
    }
}

impl PartialEqSpecImpl for Token {
    open spec fn obeys_eq_spec() -> bool {
        true
    }

    open spec fn eq_spec(&self, other: &Token) -> bool {
        self@ == other@
    }
}

impl From<char> for Token {
    /// The token that a single character stands for by itself.
    fn from(ch: char) -> (token: Token) {
        match ch {
            '(' => Token::LRound,
            ')' => Token::RRound,
            ',' => Token::Comma,
            '{' => Token::LCurly,
            '}' => Token::RCurly,
            '[' => Token::LSquare,
            ']' => Token::RSquare,
            '.' => Token::Dot,
            ':' => Token::Colon,
            '\0' => Token::Eof,
            _ => Token::Illegal,
        }
    }
}

impl FromSpecImpl<char> for Token {
    open spec fn obeys_from_spec() -> bool {
        true
    }

    open spec fn from_spec(ch: char) -> Token {
        if ch == '(' {
            Token::LRound
        } else if ch == ')' {
            Token::RRound
        } else if ch == ',' {
            Token::Comma
        } else if ch == '{' {
            Token::LCurly
        } else if ch == '}' {
            Token::RCurly
        } else if ch == '[' {
            Token::LSquare
        } else if ch == ']' {
            Token::RSquare
        } else if ch == '.' {
            Token::Dot
        } else if ch == ':' {
            Token::Colon
        } else if ch == '\0' {
            Token::Eof
        } else {
            Token::Illegal
        }
    }
}

/// A text made of digits and dots alone; the empty text is one.
pub open spec fn is_number_text(text: Seq<char>) -> bool {
    forall|i: int| 0 <= i < text.len() ==> is_int_part(#[trigger] text[i])
}

/// A text that starts with `quote` and ends with it; a single `quote` does
/// both.
pub open spec fn is_wrapped_in(text: Seq<char>, quote: char) -> bool {
    text.len() > 0 && text[0] == quote && text[text.len() - 1] == quote
}

impl From<String> for Token {
    /// The token that a word stands for, taken by itself: `true` and
    /// `false`, then a number, then a string with its quotes, and an
    /// identifier for all the rest.
    fn from(value: String) -> (token: Token) {
        if str::eq(value.as_str(), "true") {
            return Token::True;
        }
        if str::eq(value.as_str(), "false") {
            return Token::False;
        }
        let mut numeric = true;
        let mut first: Option<char> = None;
        let mut last: Option<char> = None;
        for c in it: value.as_str().chars()
            invariant
                it.seq() == value@,
                it.index() == 0 ==> first is None && last is None,
                it.index() > 0 ==> first == Some(value@[0]) && last == Some(
                    value@[it.index() - 1],
                ),
                numeric == is_number_text(value@.take(it.index() as int)),
        {
            if first.is_none() {
                first = Some(c);
            }
            last = Some(c);
            let ghost until = it.index() as int;
            proof {
                let shorter = value@.take(until);
                let longer = value@.take(until + 1);
                assert(longer[until] == c);
                assert(forall|i: int| 0 <= i < until ==> longer[i] == shorter[i]);
            }
            if !(is_digit_char(c) || c == '.') {
                numeric = false;
            }
        }
        proof {
            assert(value@.take(value@.len() as int) =~= value@);
        }
        let wrapped = match (first, last) {
            (Some(a), Some(b)) => (a == '"' && b == '"') || (a == '\'' && b == '\''),
            _ => false,
        };
        if numeric {
            Token::Int(value)
        } else if wrapped {
            Token::Str(value)
        } else {
            Token::Ident(value)
        }
    }
}

impl FromSpecImpl<String> for Token {
    open spec fn obeys_from_spec() -> bool {
        true
    }

    open spec fn from_spec(value: String) -> Token {
        if value@ == "true"@ {
            Token::True
        } else if value@ == "false"@ {
            Token::False
        } else if is_number_text(value@) {
            Token::Int(value)
        } else if is_wrapped_in(value@, '"') || is_wrapped_in(value@, '\'') {
            Token::Str(value)
        } else {
            Token::Ident(value)
        }
    }
}

} // verus!
