//! The tokenizer: hands out the tokens of a source text one at a time.
use vstd::prelude::*;
use vstd::std_specs::iter::IteratorSpec;
use vstd::string::StringSliceAdditionalSpecFns;
use vstd::utf8::*;
use crate::grammar::{
    at, in_class, is_escape, lemma_lex_bounds, lemma_run_end, lex, lex_token, optional_eq, run_end,
    starts_comment, token_start, CharClass, Lexed,
};
use crate::text::{
    byte_offset, lemma_byte_offset_end, lemma_byte_offset_mono, lemma_byte_offset_step,
    lemma_bytes_between, lemma_offset_is_boundary, lemma_same_encoding, utf8_width,
};
use crate::token::{Span, Token, TokenKind};
use crate::unicode::{is_alphabetic, is_alphanumeric, is_whitespace};

verus! {

broadcast use vstd::utf8::group_utf8_lib;

/// Why no token could be formed.
#[derive(Debug, Clone, Copy, PartialEq, Eq, Structural)]
pub enum TokenizerError {
    /// A character that begins no token; it is carried along.
    UnrecognizedCharacter(char),
    /// A character literal with nothing between its quotes.
    EmptyChar,
    /// A character literal whose closing quote does not follow its character.
    UnterminatedChar,
    /// A backslash in a character literal followed by no known escape.
    InvalidEscapeSequenceChar,
    /// A carriage return that is not part of whitespace.
    DisallowedCarriageReturn,
}

/// The byte-order mark, which may open a source text.
pub const BOM: char = '\u{FEFF}';

/// Where lexing of `s` begins: past a leading byte-order mark.
pub open spec fn first_cursor(s: Seq<char>) -> int {
    if s.len() > 0 && s[0] == BOM {
        1
    } else {
        0
    }
}

/// `r` is what a call hands out for the lexing step `l` over `s`: the token,
/// with its span in bytes of the encoded text, or the error.
pub open spec fn reports(s: Seq<char>, l: Lexed, r: Result<Token, TokenizerError>) -> bool {
    match r {
        Ok(t) => {
            &&& l.outcome == Ok::<TokenKind, TokenizerError>(t.kind)
            &&& t.span.start == byte_offset(s, l.start)
            &&& t.span.end == byte_offset(s, l.end)
        },
        Err(e) => l.outcome == Err::<TokenKind, TokenizerError>(e),
    }
}

/// Whether `c` belongs to `class`.
fn class_contains(class: CharClass, c: char) -> (r: bool)
    ensures
        r == in_class(class, c),
{
    match class {
        CharClass::Whitespace => is_whitespace(c),
        CharClass::CommentBody => c != '\n',
        CharClass::WordPart => is_alphanumeric(c) || c == '_',
        CharClass::Digit => '0' <= c && c <= '9',
    }
}

/// A tokenizer over a borrowed source text. It keeps the text's characters
/// with their byte offsets, and a cursor: the index of the next character to
/// examine, which only moves forward.
pub struct Tokenizer<'a> {
    source: &'a str,
    chars: Vec<(usize, char)>,
    pos: usize,
}

impl<'a> Tokenizer<'a> {
    #[verifier::type_invariant]
    spec fn well_formed(&self) -> bool {
        &&& self.chars@.len() == self.source@.len()
        &&& self.chars@.len() <= usize::MAX
        &&& self.pos <= self.chars@.len()
        &&& forall|i: int|
            0 <= i < self.chars@.len() ==> {
                &&& (#[trigger] self.chars@[i]).0 == byte_offset(self.source@, i)
                &&& self.chars@[i].1 == self.source@[i]
            }
    }

    /// The characters of the source text.
    pub closed spec fn text(&self) -> Seq<char> {
        self.source@
    }

    /// The index of the next character to examine.
    pub closed spec fn cursor(&self) -> int {
        self.pos as int
    }

    /// A tokenizer over `source`, with its cursor past a leading byte-order
    /// mark, if there is one.
    pub fn new(source: &'a str) -> (r: Self)
        ensures
            r.text() == source@,
            r.cursor() == first_cursor(source@),
    {
        let total = source.as_bytes().len();
        let mut chars: Vec<(usize, char)> = Vec::new();
        let mut it = source.chars();
        let mut offset: usize = 0;
        proof {
            lemma_byte_offset_end(source@);
            assert(source@.skip(0) =~= source@);
        }
        loop
            invariant
                it.remaining() == source@.skip(chars@.len() as int),
                chars@.len() <= source@.len(),
                total == encode_utf8(source@).len(),
                total == byte_offset(source@, source@.len() as int),
                offset == byte_offset(source@, chars@.len() as int),
                forall|i: int|
                    0 <= i < chars@.len() ==> {
                        &&& (#[trigger] chars@[i]).0 == byte_offset(source@, i)
                        &&& chars@[i].1 == source@[i]
                    },
            ensures
                chars@.len() == source@.len(),
                forall|i: int|
                    0 <= i < chars@.len() ==> {
                        &&& (#[trigger] chars@[i]).0 == byte_offset(source@, i)
                        &&& chars@[i].1 == source@[i]
                    },
            decreases source@.len() - chars@.len(),
        {
            let ghost k = chars@.len() as int;
            match it.next() {
                Some(c) => {
                    proof {
                        assert(source@.skip(k).len() > 0);
                        assert(c == source@[k]);
                        assert(source@.skip(k).drop_first() =~= source@.skip(k + 1));
                        lemma_byte_offset_step(source@, k);
                        lemma_byte_offset_mono(source@, k + 1, source@.len() as int);
                    }
                    chars.push((offset, c));
                    offset = offset + utf8_width(c);
                },
                None => {
                    break ;
                },
            }
        }
        let pos: usize = if chars.len() > 0 && chars[0].1 == BOM {
            1
        } else {
            0
        };
        Tokenizer { source, chars, pos }
    }

    /// The byte offset of the character of index `k`.
    fn offset_of(&self, k: usize) -> (r: usize)
        requires
            k <= self.text().len(),
        ensures
            r == byte_offset(self.text(), k as int),
    {
        proof {
            use_type_invariant(self);
            lemma_byte_offset_end(self.source@);
        }
        if k < self.chars.len() {
            self.chars[k].0
        } else {
            self.source.as_bytes().len()
        }
    }

    /// The character `ahead` places past the cursor, if the text has one;
    /// the cursor stays where it is.
    fn peek_char(&self, ahead: usize) -> (r: Option<char>)
        ensures
            r == (if self.cursor() + ahead < self.text().len() {
                Some(self.text()[self.cursor() + ahead])
            } else {
                None::<char>
            }),
    {
        proof {
            use_type_invariant(self);
        }
        if ahead < self.chars.len() - self.pos {
            Some(self.chars[self.pos + ahead].1)
        } else {
            None
        }
    }

    /// Consumes and returns the character at the cursor, if any.
    fn advance(&mut self) -> (r: Option<char>)
        ensures
            final(self).text() == old(self).text(),
            old(self).cursor() < old(self).text().len() ==> {
                &&& r == Some(old(self).text()[old(self).cursor()])
                &&& final(self).cursor() == old(self).cursor() + 1
            },
            old(self).cursor() >= old(self).text().len() ==> {
                &&& r is None
                &&& final(self).cursor() == old(self).cursor()
            },
    {
        proof {
            use_type_invariant(&*self);
        }
        if self.pos < self.chars.len() {
            let c = self.chars[self.pos].1;
            self.pos = self.pos + 1;
            Some(c)
        } else {
            None
        }
    }

    /// Consumes the character at the cursor if it is `expected`, and then
    /// returns the byte offset past it.
    fn match_next(&mut self, expected: char) -> (r: Option<usize>)
        ensures
            final(self).text() == old(self).text(),
            at(old(self).text(), old(self).cursor(), expected) ==> {
                &&& final(self).cursor() == old(self).cursor() + 1
                &&& r.is_some()
                &&& r.unwrap() == byte_offset(old(self).text(), old(self).cursor() + 1)
            },
            !at(old(self).text(), old(self).cursor(), expected) ==> {
                &&& final(self).cursor() == old(self).cursor()
                &&& r is None
            },
    {
        proof {
            use_type_invariant(&*self);
        }
        if self.pos < self.chars.len() && self.chars[self.pos].1 == expected {
            self.pos = self.pos + 1;
            Some(self.offset_of(self.pos))
        } else {
            None
        }
    }

    /// Consumes the run of characters of `class` at the cursor.
    fn skip_while(&mut self, class: CharClass)
        ensures
            final(self).text() == old(self).text(),
            final(self).cursor() == run_end(old(self).text(), old(self).cursor(), class),
    {
        proof {
            use_type_invariant(&*self);
        }
        let ghost s = self.text();
        let ghost i0 = self.cursor();
        loop
            invariant
                self.text() == s,
                s == old(self).text(),
                i0 == old(self).cursor(),
                0 <= i0 <= self.cursor() <= s.len(),
                run_end(s, self.cursor(), class) == run_end(s, i0, class),
            decreases s.len() - self.cursor(),
        {
            proof {
                use_type_invariant(&*self);
            }
            if self.pos < self.chars.len() && class_contains(class, self.chars[self.pos].1) {
                self.pos = self.pos + 1;
            } else {
                return ;
            }
        }
    }

    /// Skips whitespace at the cursor.
    fn skip_whitespace(&mut self)
        ensures
            final(self).text() == old(self).text(),
            final(self).cursor() == run_end(
                old(self).text(),
                old(self).cursor(),
                CharClass::Whitespace,
            ),
    {
        self.skip_while(CharClass::Whitespace)
    }

    /// Skips the rest of a line comment, up to the newline or the end.
    fn skip_comment(&mut self)
        ensures
            final(self).text() == old(self).text(),
            final(self).cursor() == run_end(
                old(self).text(),
                old(self).cursor(),
                CharClass::CommentBody,
            ),
    {
        self.skip_while(CharClass::CommentBody)
    }

    /// Consumes the run of characters of `class` at the cursor and returns
    /// the byte offset where it ends.
    fn read_while(&mut self, class: CharClass) -> (r: usize)
        ensures
            final(self).text() == old(self).text(),
            final(self).cursor() == run_end(old(self).text(), old(self).cursor(), class),
            r == byte_offset(old(self).text(), final(self).cursor()),
    {
        proof {
            use_type_invariant(&*self);
        }
        self.skip_while(class);
        proof {
            use_type_invariant(&*self);
        }
        self.offset_of(self.pos)
    }

    /// Consumes the rest of a word and returns the byte offset where it ends.
    fn read_lexeme(&mut self) -> (r: usize)
        ensures
            final(self).text() == old(self).text(),
            final(self).cursor() == run_end(
                old(self).text(),
                old(self).cursor(),
                CharClass::WordPart,
            ),
            r == byte_offset(old(self).text(), final(self).cursor()),
    {
        self.read_while(CharClass::WordPart)
    }

    /// Consumes a run of digits and returns the byte offset where it ends.
    fn read_number(&mut self) -> (r: usize)
        ensures
            final(self).text() == old(self).text(),
            final(self).cursor() == run_end(old(self).text(), old(self).cursor(), CharClass::Digit),
            r == byte_offset(old(self).text(), final(self).cursor()),
    {
        self.read_while(CharClass::Digit)
    }

    /// The next token of the text, or the error that stops it. Whitespace and
    /// line comments before it are skipped. Once only whitespace and comments
    /// are left, every call returns the end-of-input token, with an empty
    /// span at the end of the text.
    pub fn next(&mut self) -> (r: Result<Token, TokenizerError>)
        ensures
            final(self).text() == old(self).text(),
            final(self).cursor() == lex(old(self).text(), old(self).cursor()).end,
            old(self).cursor() <= final(self).cursor(),
            reports(old(self).text(), lex(old(self).text(), old(self).cursor()), r),
    {
        proof {
            use_type_invariant(&*self);
        }
        let ghost s = self.text();
        let ghost i0 = self.cursor();
        // Whitespace and comments are skipped in a loop, not by recursion, so
        // that any number of comment lines takes no stack.
        loop
            invariant
                self.text() == s,
                s == old(self).text(),
                i0 == old(self).cursor(),
                0 <= i0 <= self.cursor() <= s.len(),
                token_start(s, self.cursor()) == token_start(s, i0),
            decreases s.len() - self.cursor(),
        {
            proof {
                use_type_invariant(&*self);
            }
            let ghost p = self.cursor();
            self.skip_whitespace();
            proof {
                use_type_invariant(&*self);
                lemma_run_end(s, p, CharClass::Whitespace);
            }
            let ghost j = self.cursor();
            if self.pos >= self.chars.len() {
                let end = self.offset_of(self.pos);
                proof {
                    lemma_byte_offset_end(s);
                    lemma_lex_bounds(s, i0);
                }
                return Ok(Token::new(TokenKind::EOF, Span::new(end, end)));
            }
            if self.chars[self.pos].1 == '/' && self.peek_char(1) == Some('/') {
                proof {
                    assert(starts_comment(s, j));
                }
                self.pos = self.pos + 2;
                self.skip_comment();
                proof {
                    lemma_run_end(s, j + 2, CharClass::CommentBody);
                }
            } else {
                proof {
                    assert(!starts_comment(s, j));
                    assert(lex(s, i0) == lex_token(s, j));
                    lemma_lex_bounds(s, i0);
                }
                return self.read_token();
            }
        }
    }

    /// The token, or the error, that begins at the cursor, where neither
    /// whitespace nor a comment stands.
    fn read_token(&mut self) -> (r: Result<Token, TokenizerError>)
        requires
            old(self).cursor() < old(self).text().len(),
            !starts_comment(old(self).text(), old(self).cursor()),
        ensures
            final(self).text() == old(self).text(),
            final(self).cursor() == lex_token(old(self).text(), old(self).cursor()).end,
            reports(old(self).text(), lex_token(old(self).text(), old(self).cursor()), r),
    {
        proof {
            use_type_invariant(&*self);
        }
        let ghost s = self.text();
        let ghost j = self.cursor();
        let start = self.chars[self.pos].0;
        let c = self.chars[self.pos].1;
        self.pos = self.pos + 1;
        if c == '/' {
            return Ok(self.finish_with_eq(Ghost(j), start, TokenKind::SlashEqual, TokenKind::Slash));
        } else if is_alphabetic(c) || c == '_' {
            let end = self.read_lexeme();
            let span = Span::new(start, end);
            let ghost e = self.cursor();
            proof {
                lemma_run_end(s, j + 1, CharClass::WordPart);
                lemma_byte_offset_mono(s, j, e);
                lemma_byte_offset_end(s);
                lemma_offset_is_boundary(s, j);
                lemma_offset_is_boundary(s, e);
            }
            let word = Token::new(TokenKind::Identifier, span).lexeme(self.source);
            proof {
                lemma_bytes_between(s, j, e);
                lemma_same_encoding(word@, s.subrange(j, e));
            }
            return Ok(Token::new(Token::lexeme_token_kind(word), span));
        } else if c == '(' {
            return Ok(self.token_to_cursor(TokenKind::LeftCircleBracket, start));
        } else if c == ')' {
            return Ok(self.token_to_cursor(TokenKind::RightCircleBracket, start));
        } else if c == '{' {
            return Ok(self.token_to_cursor(TokenKind::LeftCurlyBracket, start));
        } else if c == '}' {
            return Ok(self.token_to_cursor(TokenKind::RightCurlyBracket, start));
        } else if c == '[' {
            return Ok(self.token_to_cursor(TokenKind::LeftSquareBracket, start));
        } else if c == ']' {
            return Ok(self.token_to_cursor(TokenKind::RightSquareBracket, start));
        } else if c == '&' {
            return Ok(self.finish_with_eq(Ghost(j), start, TokenKind::AmpersandEqual, TokenKind::Ampersand));
        } else if c == '~' {
            return Ok(self.token_to_cursor(TokenKind::Tilde, start));
        } else if c == '|' {
            return Ok(self.finish_with_eq(Ghost(j), start, TokenKind::PipeEqual, TokenKind::Pipe));
        } else if c == '^' {
            return Ok(self.finish_with_eq(Ghost(j), start, TokenKind::CaretEqual, TokenKind::Caret));
        } else if c == ':' {
            if let Some(end) = self.match_next(':') {
                return Ok(Token::new(TokenKind::DoubleColon, Span::new(start, end)));
            }
            return Ok(self.token_to_cursor(TokenKind::Colon, start));
        } else if c == ';' {
            return Ok(self.token_to_cursor(TokenKind::Semicolon, start));
        } else if c == '.' {
            if let Some(_) = self.match_next('.') {
                return Ok(
                    self.finish_with_eq(
                        Ghost(j),
                        start,
                        TokenKind::EllipsisEqual,
                        TokenKind::Ellipsis,
                    ),
                );
            }
            return Ok(self.token_to_cursor(TokenKind::Dot, start));
        } else if c == ',' {
            return Ok(self.token_to_cursor(TokenKind::Comma, start));
        } else if c == '=' {
            if let Some(end) = self.match_next('=') {
                return Ok(Token::new(TokenKind::EqualEqual, Span::new(start, end)));
            }
            if let Some(end) = self.match_next('>') {
                return Ok(Token::new(TokenKind::FatArrow, Span::new(start, end)));
            }
            return Ok(self.token_to_cursor(TokenKind::Equal, start));
        } else if c == '!' {
            return Ok(self.finish_with_eq(Ghost(j), start, TokenKind::BangEqual, TokenKind::Bang));
        } else if c == '+' {
            return Ok(self.finish_with_eq(Ghost(j), start, TokenKind::PlusEqual, TokenKind::Plus));
        } else if c == '-' {
            if let Some(end) = self.match_next('=') {
                return Ok(Token::new(TokenKind::MinusEqual, Span::new(start, end)));
            }
            if let Some(end) = self.match_next('>') {
                return Ok(Token::new(TokenKind::SkinnyArrow, Span::new(start, end)));
            }
            return Ok(self.token_to_cursor(TokenKind::Minus, start));
        } else if c == '*' {
            return Ok(self.finish_with_eq(Ghost(j), start, TokenKind::AsteriskEqual, TokenKind::Asterisk));
        } else if c == '%' {
            return Ok(self.finish_with_eq(Ghost(j), start, TokenKind::PercentEqual, TokenKind::Percent));
        } else if c == '>' {
            if let Some(end) = self.match_next('=') {
                return Ok(Token::new(TokenKind::RightAngleBracketEqual, Span::new(start, end)));
            }
            if let Some(_) = self.match_next('>') {
                return Ok(
                    self.finish_with_eq(
                        Ghost(j),
                        start,
                        TokenKind::RightAngleBracketRightAngleBracketEqual,
                        TokenKind::RightAngleBracketRightAngleBracket,
                    ),
                );
            }
            return Ok(self.token_to_cursor(TokenKind::RightAngleBracket, start));
        } else if c == '<' {
            if let Some(end) = self.match_next('=') {
                return Ok(Token::new(TokenKind::LeftAngleBracketEqual, Span::new(start, end)));
            }
            if let Some(_) = self.match_next('<') {
                return Ok(
                    self.finish_with_eq(
                        Ghost(j),
                        start,
                        TokenKind::LeftAngleBracketLeftAngleBracketEqual,
                        TokenKind::LeftAngleBracketLeftAngleBracket,
                    ),
                );
            }
            return Ok(self.token_to_cursor(TokenKind::LeftAngleBracket, start));
        } else if c == '\'' {
            match self.advance() {
                Some('\\') => match self.advance() {
                    Some(e) => {
                        if !Self::is_single_char_escape_sequence(e) {
                            return Err(TokenizerError::InvalidEscapeSequenceChar);
                        }
                    },
                    None => return Err(TokenizerError::UnterminatedChar),
                },
                Some('\'') => return Err(TokenizerError::EmptyChar),
                Some(_) => {},
                None => return Err(TokenizerError::UnterminatedChar),
            }
            match self.advance() {
                Some('\'') => return Ok(self.token_to_cursor(TokenKind::CharLiteral, start)),
                _ => return Err(TokenizerError::UnterminatedChar),
            }
        } else if '0' <= c && c <= '9' {
            let end = self.read_number();
            proof {
                lemma_run_end(s, j + 1, CharClass::Digit);
            }
            let fraction = match (self.peek_char(0), self.peek_char(1)) {
                (Some('.'), Some(d)) => '0' <= d && d <= '9',
                _ => false,
            };
            if fraction {
                // Only now is the dot consumed; otherwise it is left for
                // the next call.
                proof {
                    use_type_invariant(&*self);
                }
                self.pos = self.pos + 1;
                let float_end = self.read_number();
                return Ok(Token::new(TokenKind::FloatLiteral, Span::new(start, float_end)));
            }
            return Ok(Token::new(TokenKind::IntegerLiteral, Span::new(start, end)));
        } else if c == '\r' {
            return Err(TokenizerError::DisallowedCarriageReturn);
        } else {
            return Err(TokenizerError::UnrecognizedCharacter(c));
        }

    }

    /// A token of `kind` from the byte offset `start` to the cursor.
    fn token_to_cursor(&self, kind: TokenKind, start: usize) -> (r: Token)
        requires
            self.cursor() <= self.text().len(),
        ensures
            r.kind == kind,
            r.span.start == start,
            r.span.end == byte_offset(self.text(), self.cursor()),
    {
        Token::new(kind, Span::new(start, self.offset_of(self.pos)))
    }

    /// Ends the token that began at index `j` (byte offset `start`) and
    /// reaches the cursor: `long`, taking in an `=` at the cursor, or `short`.
    fn finish_with_eq(
        &mut self,
        Ghost(j): Ghost<int>,
        start: usize,
        long: TokenKind,
        short: TokenKind,
    ) -> (r: Token)
        requires
            0 <= j <= old(self).cursor(),
            start == byte_offset(old(self).text(), j),
        ensures
            final(self).text() == old(self).text(),
            final(self).cursor() == optional_eq(
                old(self).text(),
                j,
                old(self).cursor(),
                long,
                short,
            ).end,
            reports(
                old(self).text(),
                optional_eq(old(self).text(), j, old(self).cursor(), long, short),
                Ok(r),
            ),
    {
        proof {
            use_type_invariant(&*self);
        }
        match self.match_next('=') {
            Some(end) => Token::new(long, Span::new(start, end)),
            None => self.token_to_cursor(short, start),
        }
    }

    /// Whether `c` may follow a backslash in a character literal.
    fn is_single_char_escape_sequence(c: char) -> (r: bool)
        ensures
            r == is_escape(c),
    {
        c == 'n' || c == 'r' || c == 't' || c == '0' || c == '\\' || c == '\'' || c == '"'
    }
}

} // verus!
