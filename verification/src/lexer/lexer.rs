use vstd::prelude::*;
use super::chars::{
    is_digit, is_digit_char, is_ident_char, is_ident_part, is_ident_start, is_ident_start_char,
    is_int_part, is_quote, is_space,
};
use super::token::{Token, TokenView};

verus! {

/// The character at index `i` of `s`, or NUL where `i` is outside of it.
pub open spec fn char_at(s: Seq<char>, i: int) -> char {
    if 0 <= i < s.len() {
        s[i]
    } else {
        '\0'
    }
}

/// The kinds of character of which the scanner reads whole runs.
pub enum CharClass {
    Space,
    IdentPart,
    IntPart,
}

impl CharClass {
    /// Whether `c` is of this class.
    pub open spec fn holds(self, c: char) -> bool {
        match self {
            CharClass::Space => is_space(c),
            CharClass::IdentPart => is_ident_part(c),
            CharClass::IntPart => is_int_part(c),
        }
    }
}

/// The end of the longest run of characters of `class` that starts at index
/// `pos` of `s`.
pub open spec fn run_end(s: Seq<char>, pos: int, class: CharClass) -> int
    decreases s.len() - pos,
{
    if 0 <= pos < s.len() && class.holds(s[pos]) {
        run_end(s, pos + 1, class)
    } else {
        pos
    }
}

/// A quoted literal read so far: its contents and the index behind its
/// closing quote.
pub struct Quoted {
    pub text: Seq<char>,
    pub end: int,
}

/// `found` with `c` put in front of its contents.
pub open spec fn preceded(c: char, found: Option<Quoted>) -> Option<Quoted> {
    match found {
        Some(q) => Some(Quoted { text: seq![c] + q.text, end: q.end }),
        None => None,
    }
}

/// The body of a quoted literal whose opening quote stands just before
/// `pos`. The literal ends at the first `quote` that no backslash precedes;
/// a backslash is dropped and the character behind it is kept as it is.
/// `None` where the input ends before the literal does.
pub open spec fn quoted_body(s: Seq<char>, pos: int, quote: char) -> Option<Quoted>
    decreases s.len() - pos,
{
    if pos < 0 || pos >= s.len() {
        None
    } else if s[pos] == quote {
        Some(Quoted { text: Seq::empty(), end: pos + 1 })
    } else if s[pos] == '\\' {
        if pos + 1 < s.len() {
            preceded(s[pos + 1], quoted_body(s, pos + 2, quote))
        } else {
            None
        }
    } else {
        preceded(s[pos], quoted_body(s, pos + 1, quote))
    }
}

/// `found` with all of `prefix` put in front of its contents.
pub open spec fn prefixed(prefix: Seq<char>, found: Option<Quoted>) -> Option<Quoted> {
    match found {
        Some(q) => Some(Quoted { text: prefix + q.text, end: q.end }),
        None => None,
    }
}

proof fn lemma_prefixed_step(prefix: Seq<char>, c: char, found: Option<Quoted>)
    ensures
        prefixed(prefix, preceded(c, found)) == prefixed(prefix.push(c), found),
{
    if let Some(q) = found {
        assert(prefix + (seq![c] + q.text) =~= prefix.push(c) + q.text);
    }
}

/// The token that a single character stands for by itself.
pub open spec fn punctuator(c: char) -> TokenView {
    if c == '(' {
        TokenView::LRound
    } else if c == ')' {
        TokenView::RRound
    } else if c == ',' {
        TokenView::Comma
    } else if c == '{' {
        TokenView::LCurly
    } else if c == '}' {
        TokenView::RCurly
    } else if c == '[' {
        TokenView::LSquare
    } else if c == ']' {
        TokenView::RSquare
    } else if c == '.' {
        TokenView::Dot
    } else if c == ':' {
        TokenView::Colon
    } else if c == '\0' {
        TokenView::Eof
    } else {
        TokenView::Illegal
    }
}

/// A token together with the index at which scanning goes on.
pub struct Scanned {
    pub token: TokenView,
    pub end: int,
}

/// The token that starts at index `start` of `s`, which is no white space.
/// A quote that opens no literal, because none closes it, is a character
/// like any other.
pub open spec fn scan_token(s: Seq<char>, start: int) -> Scanned {
    let c = char_at(s, start);
    if c == '\0' {
        Scanned { token: TokenView::Eof, end: start }
    } else if is_ident_start(c) {
        let end = run_end(s, start, CharClass::IdentPart);
        Scanned { token: TokenView::Ident(s.subrange(start, end)), end }
    } else if is_digit(c) {
        let end = run_end(s, start, CharClass::IntPart);
        Scanned { token: TokenView::Int(s.subrange(start, end)), end }
    } else if is_quote(c) && quoted_body(s, start + 1, c) is Some {
        let literal = quoted_body(s, start + 1, c)->0;
        Scanned { token: TokenView::Str(literal.text), end: literal.end }
    } else {
        Scanned { token: punctuator(c), end: start + 1 }
    }
}

/// The first token of `s` at or after index `pos`: white space is passed
/// over, then one token is read.
pub open spec fn next_token(s: Seq<char>, pos: int) -> Scanned {
    scan_token(s, run_end(s, pos, CharClass::Space))
}

/// A run ends within the text, at the first character that is not of the
/// class.
pub proof fn lemma_run_end(s: Seq<char>, pos: int, class: CharClass)
    requires
        0 <= pos <= s.len(),
    ensures
        pos <= run_end(s, pos, class) <= s.len(),
        forall|i: int| pos <= i < run_end(s, pos, class) ==> class.holds(#[trigger] s[i]),
        run_end(s, pos, class) < s.len() ==> !class.holds(s[run_end(s, pos, class)]),
    decreases s.len() - pos,
{
    if pos < s.len() && class.holds(s[pos]) {
        lemma_run_end(s, pos + 1, class);
    }
}

/// A quoted literal that is closed ends within the text, behind its first
/// character.
pub proof fn lemma_quoted_body_end(s: Seq<char>, pos: int, quote: char)
    requires
        0 <= pos,
    ensures
        quoted_body(s, pos, quote) matches Some(q) ==> pos < q.end <= s.len(),
    decreases s.len() - pos,
{
    if pos < s.len() && s[pos] != quote {
        if s[pos] == '\\' {
            if pos + 1 < s.len() {
                lemma_quoted_body_end(s, pos + 2, quote);
            }
        } else {
            lemma_quoted_body_end(s, pos + 1, quote);
        }
    }
}

/// Scanning never moves back and never leaves the text, and every token but
/// the end of input takes at least one character.
pub proof fn lemma_next_token_advances(s: Seq<char>, pos: int)
    requires
        0 <= pos <= s.len(),
    ensures
        pos <= next_token(s, pos).end <= s.len(),
        next_token(s, pos).token != TokenView::Eof ==> pos < next_token(s, pos).end,
{
    let start = run_end(s, pos, CharClass::Space);
    lemma_run_end(s, pos, CharClass::Space);
    let c = char_at(s, start);
    if c != '\0' {
        lemma_run_end(s, start, CharClass::IdentPart);
        lemma_run_end(s, start, CharClass::IntPart);
        lemma_quoted_body_end(s, start + 1, c);
        if is_ident_start(c) {
            assert(run_end(s, start, CharClass::IdentPart) == run_end(
                s,
                start + 1,
                CharClass::IdentPart,
            ));
            lemma_run_end(s, start + 1, CharClass::IdentPart);
        } else if is_digit(c) {
            assert(run_end(s, start, CharClass::IntPart) == run_end(
                s,
                start + 1,
                CharClass::IntPart,
            ));
            lemma_run_end(s, start + 1, CharClass::IntPart);
        }
    }
}

/// Once the end of input has been reached, every further token is the end
/// of input again, and the position stays.
pub proof fn lemma_eof_is_final(s: Seq<char>, pos: int)
    requires
        0 <= pos <= s.len(),
        next_token(s, pos).token == TokenView::Eof,
    ensures
        next_token(s, next_token(s, pos).end) == next_token(s, pos),
{
    let start = run_end(s, pos, CharClass::Space);
    lemma_run_end(s, pos, CharClass::Space);
    assert(char_at(s, start) == '\0');
    assert(run_end(s, start, CharClass::Space) == start);
}

/// The tokens of `s` from index `pos` on, up to the first end of input,
/// which is left out.
pub open spec fn tokens_from(s: Seq<char>, pos: int) -> Seq<TokenView>
    decreases s.len() - pos,
    when 0 <= pos <= s.len()
    via tokens_from_decreases
{
    let first = next_token(s, pos);
    if first.token == TokenView::Eof {
        Seq::empty()
    } else {
        seq![first.token] + tokens_from(s, first.end)
    }
}

#[via_fn]
proof fn tokens_from_decreases(s: Seq<char>, pos: int) {
    lemma_next_token_advances(s, pos);
}

/// All the tokens of a schema source, in order.
pub open spec fn tokens_of(s: Seq<char>) -> Seq<TokenView> {
    tokens_from(s, 0)
}

/// A cursor over the characters of a schema source, which hands out its
/// tokens one by one.
pub struct Lexer {
    input: Vec<char>,
    pos: usize,
}

impl Lexer {
    #[verifier::type_invariant]
    spec fn in_bounds(&self) -> bool {
        self.pos <= self.input.len()
    }

    /// The whole text that this lexer reads.
    pub closed spec fn source(&self) -> Seq<char> {
        self.input@
    }

    /// The index in `source()` of the character that is read next.
    pub closed spec fn position(&self) -> int {
        self.pos as int
    }

    /// A lexer at the start of `input`.
    pub fn new(input: &str) -> (lexer: Lexer)
        ensures
            lexer.source() == input@,
            lexer.position() == 0,
    {
        let mut chars: Vec<char> = Vec::new();
        for c in it: input.chars()
            invariant
                chars@ == it.seq().take(it.index() as int),
                it.seq() == input@,
        {
            chars.push(c);
        }
        Lexer { input: chars, pos: 0 }
    }

    fn current(&self) -> (c: char)
        ensures
            c == char_at(self.source(), self.position()),
    {
        proof {
            use_type_invariant(self);
        }
        if self.pos < self.input.len() {
            self.input[self.pos]
        } else {
            '\0'
        }
    }

    fn next_char(&mut self)
        ensures
            final(self).source() == old(self).source(),
            final(self).position() == if old(self).position() < old(self).source().len() {
                old(self).position() + 1
            } else {
                old(self).position()
            },
    {
        proof {
            use_type_invariant(&*self);
        }
        if self.pos < self.input.len() {
            self.pos = self.pos + 1;
        }
    }

    fn skip_whitespace(&mut self)
        ensures
            final(self).source() == old(self).source(),
            final(self).position() == run_end(
                old(self).source(),
                old(self).position(),
                CharClass::Space,
            ),
    {
        loop
            invariant
                self.source() == old(self).source(),
                run_end(self.source(), self.position(), CharClass::Space) == run_end(
                    old(self).source(),
                    old(self).position(),
                    CharClass::Space,
                ),
            ensures
                self.position() == run_end(
                    old(self).source(),
                    old(self).position(),
                    CharClass::Space,
                ),
            decreases self.source().len() - self.position(),
        {
            proof {
                use_type_invariant(&*self);
            }
            let c = self.current();
            if self.pos < self.input.len() && (c == ' ' || c == '\t' || c == '\n' || c == '\r') {
                self.next_char();
            } else {
                break;
            }
        }
    }

    fn consume_ident(&mut self) -> (token: Token)
        ensures
            final(self).source() == old(self).source(),
            final(self).position() == run_end(
                old(self).source(),
                old(self).position(),
                CharClass::IdentPart,
            ),
            token@ == TokenView::Ident(
                old(self).source().subrange(old(self).position(), final(self).position()),
            ),
    {
        let mut value = String::new();
        proof {
            use_type_invariant(&*self);
            assert(value@ =~= self.source().subrange(self.position(), self.position()));
        }
        loop
            invariant
                self.source() == old(self).source(),
                old(self).position() <= self.position() <= self.source().len(),
                value@ == self.source().subrange(old(self).position(), self.position()),
                run_end(self.source(), self.position(), CharClass::IdentPart) == run_end(
                    old(self).source(),
                    old(self).position(),
                    CharClass::IdentPart,
                ),
            ensures
                self.position() == run_end(
                    old(self).source(),
                    old(self).position(),
                    CharClass::IdentPart,
                ),
            decreases self.source().len() - self.position(),
        {
            proof {
                use_type_invariant(&*self);
            }
            let c = self.current();
            if self.pos < self.input.len() && is_ident_char(c) {
                value.push(c);
                self.next_char();
                assert(value@ =~= self.source().subrange(old(self).position(), self.position()));
            } else {
                break;
            }
        }
        Token::Ident(value)
    }

    fn consume_int(&mut self) -> (token: Token)
        ensures
            final(self).source() == old(self).source(),
            final(self).position() == run_end(
                old(self).source(),
                old(self).position(),
                CharClass::IntPart,
            ),
            token@ == TokenView::Int(
                old(self).source().subrange(old(self).position(), final(self).position()),
            ),
    {
        let mut value = String::new();
        proof {
            use_type_invariant(&*self);
            assert(value@ =~= self.source().subrange(self.position(), self.position()));
        }
        loop
            invariant
                self.source() == old(self).source(),
                old(self).position() <= self.position() <= self.source().len(),
                value@ == self.source().subrange(old(self).position(), self.position()),
                run_end(self.source(), self.position(), CharClass::IntPart) == run_end(
                    old(self).source(),
                    old(self).position(),
                    CharClass::IntPart,
                ),
            ensures
                self.position() == run_end(
                    old(self).source(),
                    old(self).position(),
                    CharClass::IntPart,
                ),
            decreases self.source().len() - self.position(),
        {
            proof {
                use_type_invariant(&*self);
            }
            let c = self.current();
            if self.pos < self.input.len() && (is_digit_char(c) || c == '.') {
                value.push(c);
                self.next_char();
                assert(value@ =~= self.source().subrange(old(self).position(), self.position()));
            } else {
                break;
            }
        }
        Token::Int(value)
    }

    fn consume_string(&mut self) -> (token: Token)
        requires
            0 <= old(self).position() < old(self).source().len(),
        ensures
            final(self).source() == old(self).source(),
            match quoted_body(
                old(self).source(),
                old(self).position() + 1,
                old(self).source()[old(self).position()],
            ) {
                Some(q) => token@ == TokenView::Str(q.text) && final(self).position() == q.end,
                None => token@ == TokenView::Illegal && final(self).position() == old(
                    self,
                ).position() + 1,
            },
    {
        let mut value = String::new();
        let quote = self.current();
        let start = self.pos;
        self.next_char();
        let ghost whole = quoted_body(self.source(), self.position(), quote);
        proof {
            assert(value@ + Seq::<char>::empty() =~= Seq::<char>::empty());
            if let Some(q) = whole {
                assert(value@ + q.text =~= q.text);
            }
        }
        loop
            invariant
                self.source() == old(self).source(),
                0 <= old(self).position() < self.position() <= self.source().len(),
                start == old(self).position(),
                quote == old(self).source()[old(self).position()],
                whole == quoted_body(old(self).source(), old(self).position() + 1, quote),
                whole == prefixed(value@, quoted_body(self.source(), self.position(), quote)),
            decreases self.source().len() - self.position(),
        {
            proof {
                use_type_invariant(&*self);
            }
            if self.pos >= self.input.len() {
                self.pos = start + 1;
                return Token::Illegal;
            }
            let c = self.current();
            if c == quote {
                self.next_char();
                proof {
                    assert(value@ + Seq::<char>::empty() =~= value@);
                }
                return Token::Str(value);
            }
            if c == '\\' {
                self.next_char();
                if self.pos >= self.input.len() {
                    self.pos = start + 1;
                    return Token::Illegal;
                }
                let escaped = self.current();
                proof {
                    lemma_prefixed_step(
                        value@,
                        escaped,
                        quoted_body(self.source(), self.position() + 1, quote),
                    );
                }
                value.push(escaped);
                self.next_char();
            } else {
                proof {
                    lemma_prefixed_step(
                        value@,
                        c,
                        quoted_body(self.source(), self.position() + 1, quote),
                    );
                }
                value.push(c);
                self.next_char();
            }
        }
    }

    /// The next token of the source. White space before it is passed over.
    /// At the end of the input, and at a NUL character, the token is
    /// `Token::Eof` and the lexer stays where it is.
    pub fn next(&mut self) -> (token: Token)
        ensures
            final(self).source() == old(self).source(),
            token@ == next_token(old(self).source(), old(self).position()).token,
            final(self).position() == next_token(old(self).source(), old(self).position()).end,
    {
        self.skip_whitespace();
        proof {
            use_type_invariant(&*self);
        }
        let c = self.current();
        if c == '\0' {
            Token::Eof
        } else if is_ident_start_char(c) {
            self.consume_ident()
        } else if is_digit_char(c) {
            self.consume_int()
        } else if c == '"' || c == '\'' {
            self.consume_string()
        } else {
            self.next_char();
            Token::from(c)
        }
    }

    /// The low byte of the character behind the one that is read next, or 0
    /// where there is none. The lexer stays where it is.
    pub fn peek(&mut self) -> (b: u8)
        ensures
            *final(self) == *old(self),
            b == if old(self).position() + 1 < old(self).source().len() {
                old(self).source()[old(self).position() + 1] as u8
            } else {
                0u8
            },
    {
        proof {
            use_type_invariant(&*self);
        }
        if self.pos < self.input.len() && self.pos + 1 < self.input.len() {
            self.input[self.pos + 1] as u8
        } else {
            0
        }
    }
}

} // verus!
