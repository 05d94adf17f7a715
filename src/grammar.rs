//! The lexical grammar, stated over the characters of the source: where the
//! next token begins, what kind it is and where it ends, or why no token can
//! be formed there.
use vstd::prelude::*;
use crate::token::{keyword_kind, TokenKind};
use crate::tokenizer::TokenizerError;
use crate::unicode::{alphabetic, alphanumeric, white_space};

verus! {

/// Classes of characters that the tokenizer consumes in runs.
#[derive(Debug, Clone, Copy, PartialEq, Eq, Structural)]
pub enum CharClass {
    /// Whitespace between tokens.
    Whitespace,
    /// The body of a line comment: anything but a newline.
    CommentBody,
    /// The characters that may follow the first one of a word.
    WordPart,
    /// ASCII decimal digits.
    Digit,
}

/// An ASCII decimal digit.
pub open spec fn is_ascii_digit(c: char) -> bool {
    '0' <= c <= '9'
}

/// The characters that may follow a backslash in a character literal.
pub open spec fn is_escape(c: char) -> bool {
    c == 'n' || c == 'r' || c == 't' || c == '0' || c == '\\' || c == '\'' || c == '"'
}

/// Membership of `c` in `class`.
pub open spec fn in_class(class: CharClass, c: char) -> bool {
    match class {
        CharClass::Whitespace => white_space(c),
        CharClass::CommentBody => c != '\n',
        CharClass::WordPart => alphanumeric(c) || c == '_',
        CharClass::Digit => is_ascii_digit(c),
    }
}

/// The index at which the run of characters of `class` that begins at `i` ends.
pub open spec fn run_end(s: Seq<char>, i: int, class: CharClass) -> int
    decreases s.len() - i,
{
    if 0 <= i < s.len() && in_class(class, s[i]) {
        run_end(s, i + 1, class)
    } else {
        i
    }
}

/// A line comment opens at `j`.
pub open spec fn starts_comment(s: Seq<char>, j: int) -> bool {
    0 <= j && j + 1 < s.len() && s[j] == '/' && s[j + 1] == '/'
}

/// The character at `k` exists and is `c`.
pub open spec fn at(s: Seq<char>, k: int, c: char) -> bool {
    0 <= k < s.len() && s[k] == c
}

/// Where the next token begins when scanning from `i`: past any mix of
/// whitespace and line comments (`s.len()` when nothing else is left).
pub open spec fn token_start(s: Seq<char>, i: int) -> int
    decreases s.len() - i,
    via token_start_decreases
{
    let j = run_end(s, i, CharClass::Whitespace);
    if starts_comment(s, j) {
        token_start(s, run_end(s, j + 2, CharClass::CommentBody))
    } else {
        j
    }
}

#[via_fn]
proof fn token_start_decreases(s: Seq<char>, i: int) {
    lemma_run_end(s, i, CharClass::Whitespace);
    let j = run_end(s, i, CharClass::Whitespace);
    if starts_comment(s, j) {
        lemma_run_end(s, j + 2, CharClass::CommentBody);
    }
}

/// A run ends at or after its start, no later than the end of the text when
/// it starts inside it, and at a character outside the class.
pub proof fn lemma_run_end(s: Seq<char>, i: int, class: CharClass)
    ensures
        i <= run_end(s, i, class),
        i <= s.len() ==> run_end(s, i, class) <= s.len(),
        0 <= i ==> forall|k: int| i <= k < run_end(s, i, class) ==> in_class(class, #[trigger] s[k]),
        0 <= i <= s.len() ==> run_end(s, i, class) == s.len() || !in_class(class, s[run_end(s, i, class)]),
    decreases s.len() - i,
{
    if 0 <= i < s.len() && in_class(class, s[i]) {
        lemma_run_end(s, i + 1, class);
    }
}

/// The outcome of one step of lexing: a token kind or an error, the index
/// where the token (or the rejected text) begins, and the index where the
/// scan stops, which is where the token ends.
pub struct Lexed {
    pub outcome: Result<TokenKind, TokenizerError>,
    pub start: int,
    pub end: int,
}

/// A token of `kind` over `[start, end)`.
pub open spec fn emit(kind: TokenKind, start: int, end: int) -> Lexed {
    Lexed { outcome: Ok(kind), start, end }
}

/// An error for the text that begins at `start`; the scan stops at `end`.
pub open spec fn fail(e: TokenizerError, start: int, end: int) -> Lexed {
    Lexed { outcome: Err(e), start, end }
}

/// A token that begins at `j` and reaches `k`: `long`, taking in one more
/// character, when an `=` stands at `k`; `short` otherwise.
pub open spec fn optional_eq(s: Seq<char>, j: int, k: int, long: TokenKind, short: TokenKind) -> Lexed {
    if at(s, k, '=') {
        emit(long, j, k + 1)
    } else {
        emit(short, j, k)
    }
}

/// A character literal whose opening quote is at `j`.
pub open spec fn char_literal(s: Seq<char>, j: int) -> Lexed {
    if j + 1 >= s.len() {
        fail(TokenizerError::UnterminatedChar, j, s.len() as int)
    } else if s[j + 1] == '\\' {
        if j + 2 >= s.len() {
            fail(TokenizerError::UnterminatedChar, j, s.len() as int)
        } else if !is_escape(s[j + 2]) {
            fail(TokenizerError::InvalidEscapeSequenceChar, j, j + 3)
        } else {
            close_char_literal(s, j, j + 3)
        }
    } else if s[j + 1] == '\'' {
        fail(TokenizerError::EmptyChar, j, j + 2)
    } else {
        close_char_literal(s, j, j + 2)
    }
}

/// The end of a character literal that opened at `j` and whose closing quote
/// is due at `m`.
pub open spec fn close_char_literal(s: Seq<char>, j: int, m: int) -> Lexed {
    if m >= s.len() {
        fail(TokenizerError::UnterminatedChar, j, s.len() as int)
    } else if s[m] == '\'' {
        emit(TokenKind::CharLiteral, j, m + 1)
    } else {
        fail(TokenizerError::UnterminatedChar, j, m + 1)
    }
}

/// A number whose first digit is at `j`: an integer, or a float when the
/// digits are followed by a dot and another digit.
pub open spec fn number(s: Seq<char>, j: int) -> Lexed {
    let e = run_end(s, j + 1, CharClass::Digit);
    if at(s, e, '.') && e + 1 < s.len() && is_ascii_digit(s[e + 1]) {
        emit(TokenKind::FloatLiteral, j, run_end(s, e + 2, CharClass::Digit))
    } else {
        emit(TokenKind::IntegerLiteral, j, e)
    }
}

/// The token that begins at `j`, where neither whitespace nor a comment
/// stands, chosen by its first character with the longest match: a slash, a word
/// (a reserved word or an identifier), a delimiter or operator, a character
/// literal, a number; a carriage return or any other character is rejected.
pub open spec fn lex_token(s: Seq<char>, j: int) -> Lexed {
    let c = s[j];
    if c == '/' {
        optional_eq(s, j, j + 1, TokenKind::SlashEqual, TokenKind::Slash)
    } else if alphabetic(c) || c == '_' {
        let e = run_end(s, j + 1, CharClass::WordPart);
        emit(keyword_kind(s.subrange(j, e)), j, e)
    } else if c == '(' {
        emit(TokenKind::LeftCircleBracket, j, j + 1)
    } else if c == ')' {
        emit(TokenKind::RightCircleBracket, j, j + 1)
    } else if c == '{' {
        emit(TokenKind::LeftCurlyBracket, j, j + 1)
    } else if c == '}' {
        emit(TokenKind::RightCurlyBracket, j, j + 1)
    } else if c == '[' {
        emit(TokenKind::LeftSquareBracket, j, j + 1)
    } else if c == ']' {
        emit(TokenKind::RightSquareBracket, j, j + 1)
    } else if c == '&' {
        optional_eq(s, j, j + 1, TokenKind::AmpersandEqual, TokenKind::Ampersand)
    } else if c == '~' {
        emit(TokenKind::Tilde, j, j + 1)
    } else if c == '|' {
        optional_eq(s, j, j + 1, TokenKind::PipeEqual, TokenKind::Pipe)
    } else if c == '^' {
        optional_eq(s, j, j + 1, TokenKind::CaretEqual, TokenKind::Caret)
    } else if c == ':' {
        if at(s, j + 1, ':') {
            emit(TokenKind::DoubleColon, j, j + 2)
        } else {
            emit(TokenKind::Colon, j, j + 1)
        }
    } else if c == ';' {
        emit(TokenKind::Semicolon, j, j + 1)
    } else if c == '.' {
        if at(s, j + 1, '.') {
            optional_eq(s, j, j + 2, TokenKind::EllipsisEqual, TokenKind::Ellipsis)
        } else {
            emit(TokenKind::Dot, j, j + 1)
        }
    } else if c == ',' {
        emit(TokenKind::Comma, j, j + 1)
    } else if c == '=' {
        if at(s, j + 1, '=') {
            emit(TokenKind::EqualEqual, j, j + 2)
        } else if at(s, j + 1, '>') {
            emit(TokenKind::FatArrow, j, j + 2)
        } else {
            emit(TokenKind::Equal, j, j + 1)
        }
    } else if c == '!' {
        optional_eq(s, j, j + 1, TokenKind::BangEqual, TokenKind::Bang)
    } else if c == '+' {
        optional_eq(s, j, j + 1, TokenKind::PlusEqual, TokenKind::Plus)
    } else if c == '-' {
        if at(s, j + 1, '=') {
            emit(TokenKind::MinusEqual, j, j + 2)
        } else if at(s, j + 1, '>') {
            emit(TokenKind::SkinnyArrow, j, j + 2)
        } else {
            emit(TokenKind::Minus, j, j + 1)
        }
    } else if c == '*' {
        optional_eq(s, j, j + 1, TokenKind::AsteriskEqual, TokenKind::Asterisk)
    } else if c == '%' {
        optional_eq(s, j, j + 1, TokenKind::PercentEqual, TokenKind::Percent)
    } else if c == '>' {
        if at(s, j + 1, '=') {
            emit(TokenKind::RightAngleBracketEqual, j, j + 2)
        } else if at(s, j + 1, '>') {
            optional_eq(
                s,
                j,
                j + 2,
                TokenKind::RightAngleBracketRightAngleBracketEqual,
                TokenKind::RightAngleBracketRightAngleBracket,
            )
        } else {
            emit(TokenKind::RightAngleBracket, j, j + 1)
        }
    } else if c == '<' {
        if at(s, j + 1, '=') {
            emit(TokenKind::LeftAngleBracketEqual, j, j + 2)
        } else if at(s, j + 1, '<') {
            optional_eq(
                s,
                j,
                j + 2,
                TokenKind::LeftAngleBracketLeftAngleBracketEqual,
                TokenKind::LeftAngleBracketLeftAngleBracket,
            )
        } else {
            emit(TokenKind::LeftAngleBracket, j, j + 1)
        }
    } else if c == '\'' {
        char_literal(s, j)
    } else if is_ascii_digit(c) {
        number(s, j)
    } else if c == '\r' {
        fail(TokenizerError::DisallowedCarriageReturn, j, j + 1)
    } else {
        fail(TokenizerError::UnrecognizedCharacter(c), j, j + 1)
    }
}

/// One step of lexing from the cursor `i`: the end-of-input token, an empty
/// span at the end of the text, when only whitespace and comments are left;
/// else the token, or the error, at the first other character.
pub open spec fn lex(s: Seq<char>, i: int) -> Lexed {
    let j = token_start(s, i);
    if j >= s.len() {
        emit(TokenKind::EOF, s.len() as int, s.len() as int)
    } else {
        lex_token(s, j)
    }
}

/// The next token begins at or after the cursor, within the text, at a
/// character that is neither whitespace nor the opening of a comment.
pub proof fn lemma_token_start(s: Seq<char>, i: int)
    requires
        0 <= i <= s.len(),
    ensures
        i <= token_start(s, i) <= s.len(),
        token_start(s, i) < s.len() ==> !white_space(s[token_start(s, i)]),
        !starts_comment(s, token_start(s, i)),
    decreases s.len() - i,
{
    lemma_run_end(s, i, CharClass::Whitespace);
    let j = run_end(s, i, CharClass::Whitespace);
    if starts_comment(s, j) {
        lemma_run_end(s, j + 2, CharClass::CommentBody);
        lemma_token_start(s, run_end(s, j + 2, CharClass::CommentBody));
    }
}

/// One step of lexing stays within the text and never moves back: the
/// token, or the rejected text, begins at or after the cursor, and the scan
/// stops at or after that. Every token but the end-of-input one takes in at
/// least one character.
pub proof fn lemma_lex_bounds(s: Seq<char>, i: int)
    requires
        0 <= i <= s.len(),
    ensures
        i <= lex(s, i).start <= lex(s, i).end <= s.len(),
        lex(s, i).outcome is Ok && lex(s, i).outcome != Ok::<TokenKind, TokenizerError>(
            TokenKind::EOF,
        ) ==> lex(s, i).start < lex(s, i).end,
{
    lemma_token_start(s, i);
    let j = token_start(s, i);
    if j < s.len() {
        lemma_run_end(s, j + 1, CharClass::WordPart);
        lemma_run_end(s, j + 1, CharClass::Digit);
        let e = run_end(s, j + 1, CharClass::Digit);
        if e + 2 <= s.len() {
            lemma_run_end(s, e + 2, CharClass::Digit);
        }
    }
}

} // verus!
