//! Tokens: their kinds, their spans in the source text, and the table of
//! reserved words.
use vstd::prelude::*;
use vstd::string::StringSliceAdditionalSpecFns;
use vstd::utf8::*;

verus! {

broadcast use vstd::utf8::group_utf8_lib;

/// A lexical unit: its kind and where its text lies in the source.
#[derive(Debug, Clone, Copy, PartialEq, Eq, Structural)]
pub struct Token {
    pub kind: TokenKind,
    pub span: Span,
}

/// The kind of a token: an identifier, a literal, a delimiter, an operator,
/// a reserved word, or the end of the input. The text of a token is not
/// stored; it is recovered from the source through the token's span.
#[derive(Debug, Clone, Copy, PartialEq, Eq, Structural)]
pub enum TokenKind {
    // Identifier
    Identifier,
    // Literals
    IntegerLiteral,
    FloatLiteral,
    CharLiteral,
    // Delimiters
    LeftCircleBracket,
    RightCircleBracket,
    LeftCurlyBracket,
    RightCurlyBracket,
    LeftSquareBracket,
    RightSquareBracket,
    Colon,
    DoubleColon,
    Semicolon,
    Dot,
    Comma,
    // Operators
    Equal,
    Bang,
    Plus,
    Minus,
    Asterisk,
    Ampersand,
    Slash,
    Percent,
    AmpersandEqual,
    Tilde,
    Pipe,
    PipeEqual,
    PlusEqual,
    MinusEqual,
    CaretEqual,
    Caret,
    AsteriskEqual,
    SlashEqual,
    PercentEqual,
    EqualEqual,
    BangEqual,
    RightAngleBracket,
    RightAngleBracketRightAngleBracketEqual,
    RightAngleBracketRightAngleBracket,
    RightAngleBracketEqual,
    LeftAngleBracket,
    LeftAngleBracketLeftAngleBracket,
    LeftAngleBracketLeftAngleBracketEqual,
    LeftAngleBracketEqual,
    SkinnyArrow,
    FatArrow,
    Ellipsis,
    EllipsisEqual,
    // Reserved words
    And,
    Break,
    Continue,
    Const,
    Else,
    Enum,
    Defer,
    False,
    For,
    Func,
    If,
    Implements,
    Import,
    In,
    Interface,
    Match,
    Null,
    Or,
    Pub,
    Return,
    Struct,
    This,
    True,
    Var,
    While,
    // End of the input
    EOF,
}

/// A range of byte offsets into the source text: `start` is inclusive and
/// `end` exclusive.
#[derive(Debug, Clone, Copy, PartialEq, Eq, Structural)]
pub struct Span {
    pub start: usize,
    pub end: usize,
}

/// The text of a token kind whose text never varies: a delimiter, an
/// operator or a reserved word. Empty for the other kinds.
pub open spec fn spelling(kind: TokenKind) -> Seq<char> {
    match kind {
        TokenKind::LeftCircleBracket => seq!['('],
        TokenKind::RightCircleBracket => seq![')'],
        TokenKind::LeftCurlyBracket => seq!['{'],
        TokenKind::RightCurlyBracket => seq!['}'],
        TokenKind::LeftSquareBracket => seq!['['],
        TokenKind::RightSquareBracket => seq![']'],
        TokenKind::Colon => seq![':'],
        TokenKind::DoubleColon => seq![':', ':'],
        TokenKind::Semicolon => seq![';'],
        TokenKind::Dot => seq!['.'],
        TokenKind::Comma => seq![','],
        TokenKind::Equal => seq!['='],
        TokenKind::Bang => seq!['!'],
        TokenKind::Plus => seq!['+'],
        TokenKind::Minus => seq!['-'],
        TokenKind::Asterisk => seq!['*'],
        TokenKind::Ampersand => seq!['&'],
        TokenKind::Slash => seq!['/'],
        TokenKind::Percent => seq!['%'],
        TokenKind::AmpersandEqual => seq!['&', '='],
        TokenKind::Tilde => seq!['~'],
        TokenKind::Pipe => seq!['|'],
        TokenKind::PipeEqual => seq!['|', '='],
        TokenKind::PlusEqual => seq!['+', '='],
        TokenKind::MinusEqual => seq!['-', '='],
        TokenKind::CaretEqual => seq!['^', '='],
        TokenKind::Caret => seq!['^'],
        TokenKind::AsteriskEqual => seq!['*', '='],
        TokenKind::SlashEqual => seq!['/', '='],
        TokenKind::PercentEqual => seq!['%', '='],
        TokenKind::EqualEqual => seq!['=', '='],
        TokenKind::BangEqual => seq!['!', '='],
        TokenKind::RightAngleBracket => seq!['>'],
        TokenKind::RightAngleBracketRightAngleBracketEqual => seq!['>', '>', '='],
        TokenKind::RightAngleBracketRightAngleBracket => seq!['>', '>'],
        TokenKind::RightAngleBracketEqual => seq!['>', '='],
        TokenKind::LeftAngleBracket => seq!['<'],
        TokenKind::LeftAngleBracketLeftAngleBracket => seq!['<', '<'],
        TokenKind::LeftAngleBracketLeftAngleBracketEqual => seq!['<', '<', '='],
        TokenKind::LeftAngleBracketEqual => seq!['<', '='],
        TokenKind::SkinnyArrow => seq!['-', '>'],
        TokenKind::FatArrow => seq!['=', '>'],
        TokenKind::Ellipsis => seq!['.', '.'],
        TokenKind::EllipsisEqual => seq!['.', '.', '='],
        TokenKind::And => seq!['a', 'n', 'd'],
        TokenKind::Break => seq!['b', 'r', 'e', 'a', 'k'],
        TokenKind::Continue => seq!['c', 'o', 'n', 't', 'i', 'n', 'u', 'e'],
        TokenKind::Const => seq!['c', 'o', 'n', 's', 't'],
        TokenKind::Else => seq!['e', 'l', 's', 'e'],
        TokenKind::Enum => seq!['e', 'n', 'u', 'm'],
        TokenKind::Defer => seq!['d', 'e', 'f', 'e', 'r'],
        TokenKind::False => seq!['f', 'a', 'l', 's', 'e'],
        TokenKind::For => seq!['f', 'o', 'r'],
        TokenKind::Func => seq!['f', 'u', 'n', 'c'],
        TokenKind::If => seq!['i', 'f'],
        TokenKind::Implements => seq!['i', 'm', 'p', 'l', 'e', 'm', 'e', 'n', 't', 's'],
        TokenKind::Import => seq!['i', 'm', 'p', 'o', 'r', 't'],
        TokenKind::In => seq!['i', 'n'],
        TokenKind::Interface => seq!['i', 'n', 't', 'e', 'r', 'f', 'a', 'c', 'e'],
        TokenKind::Match => seq!['m', 'a', 't', 'c', 'h'],
        TokenKind::Null => seq!['n', 'u', 'l', 'l'],
        TokenKind::Or => seq!['o', 'r'],
        TokenKind::Pub => seq!['p', 'u', 'b'],
        TokenKind::Return => seq!['r', 'e', 't', 'u', 'r', 'n'],
        TokenKind::Struct => seq!['s', 't', 'r', 'u', 'c', 't'],
        TokenKind::This => seq!['t', 'h', 'i', 's'],
        TokenKind::True => seq!['t', 'r', 'u', 'e'],
        TokenKind::Var => seq!['v', 'a', 'r'],
        TokenKind::While => seq!['w', 'h', 'i', 'l', 'e'],
        _ => Seq::empty(),
    }
}

/// The kinds whose text varies from token to token.
pub open spec fn is_variable_kind(kind: TokenKind) -> bool {
    ||| kind is Identifier
    ||| kind is IntegerLiteral
    ||| kind is FloatLiteral
    ||| kind is CharLiteral
    ||| kind is EOF
}

/// The reserved words.
pub open spec fn is_keyword(kind: TokenKind) -> bool {
    match kind {
        TokenKind::And
        | TokenKind::Break
        | TokenKind::Continue
        | TokenKind::Const
        | TokenKind::Else
        | TokenKind::Enum
        | TokenKind::Defer
        | TokenKind::False
        | TokenKind::For
        | TokenKind::Func
        | TokenKind::If
        | TokenKind::Implements
        | TokenKind::Import
        | TokenKind::In
        | TokenKind::Interface
        | TokenKind::Match
        | TokenKind::Null
        | TokenKind::Or
        | TokenKind::Pub
        | TokenKind::Return
        | TokenKind::Struct
        | TokenKind::This
        | TokenKind::True
        | TokenKind::Var
        | TokenKind::While => true,
        _ => false,
    }
}

/// The kind of a word made of identifier characters: the reserved word it
/// spells, if any, and an identifier otherwise. Case matters.
pub open spec fn keyword_kind(word: Seq<char>) -> TokenKind {
    if word == spelling(TokenKind::And) {
        TokenKind::And
    } else if word == spelling(TokenKind::Break) {
        TokenKind::Break
    } else if word == spelling(TokenKind::Continue) {
        TokenKind::Continue
    } else if word == spelling(TokenKind::Const) {
        TokenKind::Const
    } else if word == spelling(TokenKind::Else) {
        TokenKind::Else
    } else if word == spelling(TokenKind::Enum) {
        TokenKind::Enum
    } else if word == spelling(TokenKind::Defer) {
        TokenKind::Defer
    } else if word == spelling(TokenKind::False) {
        TokenKind::False
    } else if word == spelling(TokenKind::For) {
        TokenKind::For
    } else if word == spelling(TokenKind::Func) {
        TokenKind::Func
    } else if word == spelling(TokenKind::If) {
        TokenKind::If
    } else if word == spelling(TokenKind::Implements) {
        TokenKind::Implements
    } else if word == spelling(TokenKind::Import) {
        TokenKind::Import
    } else if word == spelling(TokenKind::In) {
        TokenKind::In
    } else if word == spelling(TokenKind::Interface) {
        TokenKind::Interface
    } else if word == spelling(TokenKind::Match) {
        TokenKind::Match
    } else if word == spelling(TokenKind::Null) {
        TokenKind::Null
    } else if word == spelling(TokenKind::Or) {
        TokenKind::Or
    } else if word == spelling(TokenKind::Pub) {
        TokenKind::Pub
    } else if word == spelling(TokenKind::Return) {
        TokenKind::Return
    } else if word == spelling(TokenKind::Struct) {
        TokenKind::Struct
    } else if word == spelling(TokenKind::This) {
        TokenKind::This
    } else if word == spelling(TokenKind::True) {
        TokenKind::True
    } else if word == spelling(TokenKind::Var) {
        TokenKind::Var
    } else if word == spelling(TokenKind::While) {
        TokenKind::While
    } else {
        TokenKind::Identifier
    }
}

/// The table of reserved words is consistent: a word is classified as a
/// reserved word exactly when it is that word's spelling, and as an
/// identifier exactly when it spells no reserved word.
pub proof fn lemma_keyword_kind(word: Seq<char>)
    ensures
        is_keyword(keyword_kind(word)) ==> spelling(keyword_kind(word)) == word,
        keyword_kind(word) is Identifier <==> (forall|k: TokenKind|
            is_keyword(k) ==> spelling(k) != word),
        is_keyword(keyword_kind(word)) || keyword_kind(word) is Identifier,
{
    if keyword_kind(word) is Identifier {
        assert forall|k: TokenKind| is_keyword(k) implies spelling(k) != word by {
            match k {
                TokenKind::And => {},
                TokenKind::Break => {},
                TokenKind::Continue => {},
                TokenKind::Const => {},
                TokenKind::Else => {},
                TokenKind::Enum => {},
                TokenKind::Defer => {},
                TokenKind::False => {},
                TokenKind::For => {},
                TokenKind::Func => {},
                TokenKind::If => {},
                TokenKind::Implements => {},
                TokenKind::Import => {},
                TokenKind::In => {},
                TokenKind::Interface => {},
                TokenKind::Match => {},
                TokenKind::Null => {},
                TokenKind::Or => {},
                TokenKind::Pub => {},
                TokenKind::Return => {},
                TokenKind::Struct => {},
                TokenKind::This => {},
                TokenKind::True => {},
                TokenKind::Var => {},
                TokenKind::While => {},
                _ => {},
            }
        }
    }
}

impl Span {
    /// A span from `start` (inclusive) to `end` (exclusive).
    pub fn new(start: usize, end: usize) -> (r: Self)
        ensures
            r.start == start,
            r.end == end,
    {
        Span { start, end }
    }
}

impl Token {
    /// A token of the given kind and span.
    pub fn new(kind: TokenKind, span: Span) -> (r: Self)
        ensures
            r.kind == kind,
            r.span == span,
    {
        Token { kind, span }
    }

    /// The token's text: the part of `source` that its span covers.
    pub fn lexeme<'a>(&self, source: &'a str) -> (r: &'a str)
        requires
            self.span.start <= self.span.end <= source.spec_bytes().len(),
            is_char_boundary(source.spec_bytes(), self.span.start as int),
            is_char_boundary(source.spec_bytes(), self.span.end as int),
        ensures
            encode_utf8(r@) == source.spec_bytes().subrange(
                self.span.start as int,
                self.span.end as int,
            ),
    {
        let start = self.span.start;
        let end = self.span.end;
        let (_, rest) = source.split_at(start);
        proof {
            let bytes = source.spec_bytes();
            let tail = bytes.subrange(start as int, bytes.len() as int);
            assert(rest.spec_bytes() == tail);
            valid_utf8_split(bytes, start as int);
            if end < bytes.len() {
                assert(tail[end - start] == bytes[end as int]);
                is_char_boundary_iff_not_is_continuation_byte(bytes, end as int);
                is_char_boundary_iff_not_is_continuation_byte(tail, end - start);
            } else {
                is_char_boundary_start_end_of_seq(tail);
            }
        }
        let (word, _) = rest.split_at(end - start);
        proof {
            let bytes = source.spec_bytes();
            assert(word.spec_bytes() =~= bytes.subrange(start as int, end as int));
        }
        word
    }

    /// The kind of the word `ident`: the reserved word it spells, or an
    /// identifier.
    pub fn lexeme_token_kind(ident: &str) -> (r: TokenKind)
        ensures
            r == keyword_kind(ident@),
    {
        proof {
            reveal_strlit("and");
            reveal_strlit("break");
            reveal_strlit("continue");
            reveal_strlit("const");
            reveal_strlit("else");
            reveal_strlit("enum");
            reveal_strlit("defer");
            reveal_strlit("false");
            reveal_strlit("for");
            reveal_strlit("func");
            reveal_strlit("if");
            reveal_strlit("implements");
            reveal_strlit("import");
            reveal_strlit("in");
            reveal_strlit("interface");
            reveal_strlit("match");
            reveal_strlit("null");
            reveal_strlit("or");
            reveal_strlit("pub");
            reveal_strlit("return");
            reveal_strlit("struct");
            reveal_strlit("this");
            reveal_strlit("true");
            reveal_strlit("var");
            reveal_strlit("while");
        }
        if same_text(ident, "and") {
            assert("and"@ =~= spelling(TokenKind::And));
            TokenKind::And
        } else if same_text(ident, "break") {
            assert("break"@ =~= spelling(TokenKind::Break));
            TokenKind::Break
        } else if same_text(ident, "continue") {
            assert("continue"@ =~= spelling(TokenKind::Continue));
            TokenKind::Continue
        } else if same_text(ident, "const") {
            assert("const"@ =~= spelling(TokenKind::Const));
            TokenKind::Const
        } else if same_text(ident, "else") {
            assert("else"@ =~= spelling(TokenKind::Else));
            TokenKind::Else
        } else if same_text(ident, "enum") {
            assert("enum"@ =~= spelling(TokenKind::Enum));
            TokenKind::Enum
        } else if same_text(ident, "defer") {
            assert("defer"@ =~= spelling(TokenKind::Defer));
            TokenKind::Defer
        } else if same_text(ident, "false") {
            assert("false"@ =~= spelling(TokenKind::False));
            TokenKind::False
        } else if same_text(ident, "for") {
            assert("for"@ =~= spelling(TokenKind::For));
            TokenKind::For
        } else if same_text(ident, "func") {
            assert("func"@ =~= spelling(TokenKind::Func));
            TokenKind::Func
        } else if same_text(ident, "if") {
            assert("if"@ =~= spelling(TokenKind::If));
            TokenKind::If
        } else if same_text(ident, "implements") {
            assert("implements"@ =~= spelling(TokenKind::Implements));
            TokenKind::Implements
        } else if same_text(ident, "import") {
            assert("import"@ =~= spelling(TokenKind::Import));
            TokenKind::Import
        } else if same_text(ident, "in") {
            assert("in"@ =~= spelling(TokenKind::In));
            TokenKind::In
        } else if same_text(ident, "interface") {
            assert("interface"@ =~= spelling(TokenKind::Interface));
            TokenKind::Interface
        } else if same_text(ident, "match") {
            assert("match"@ =~= spelling(TokenKind::Match));
            TokenKind::Match
        } else if same_text(ident, "null") {
            assert("null"@ =~= spelling(TokenKind::Null));
            TokenKind::Null
        } else if same_text(ident, "or") {
            assert("or"@ =~= spelling(TokenKind::Or));
            TokenKind::Or
        } else if same_text(ident, "pub") {
            assert("pub"@ =~= spelling(TokenKind::Pub));
            TokenKind::Pub
        } else if same_text(ident, "return") {
            assert("return"@ =~= spelling(TokenKind::Return));
            TokenKind::Return
        } else if same_text(ident, "struct") {
            assert("struct"@ =~= spelling(TokenKind::Struct));
            TokenKind::Struct
        } else if same_text(ident, "this") {
            assert("this"@ =~= spelling(TokenKind::This));
            TokenKind::This
        } else if same_text(ident, "true") {
            assert("true"@ =~= spelling(TokenKind::True));
            TokenKind::True
        } else if same_text(ident, "var") {
            assert("var"@ =~= spelling(TokenKind::Var));
            TokenKind::Var
        } else if same_text(ident, "while") {
            assert("while"@ =~= spelling(TokenKind::While));
            TokenKind::While
        } else {
            assert("and"@ =~= spelling(TokenKind::And));
            assert("break"@ =~= spelling(TokenKind::Break));
            assert("continue"@ =~= spelling(TokenKind::Continue));
            assert("const"@ =~= spelling(TokenKind::Const));
            assert("else"@ =~= spelling(TokenKind::Else));
            assert("enum"@ =~= spelling(TokenKind::Enum));
            assert("defer"@ =~= spelling(TokenKind::Defer));
            assert("false"@ =~= spelling(TokenKind::False));
            assert("for"@ =~= spelling(TokenKind::For));
            assert("func"@ =~= spelling(TokenKind::Func));
            assert("if"@ =~= spelling(TokenKind::If));
            assert("implements"@ =~= spelling(TokenKind::Implements));
            assert("import"@ =~= spelling(TokenKind::Import));
            assert("in"@ =~= spelling(TokenKind::In));
            assert("interface"@ =~= spelling(TokenKind::Interface));
            assert("match"@ =~= spelling(TokenKind::Match));
            assert("null"@ =~= spelling(TokenKind::Null));
            assert("or"@ =~= spelling(TokenKind::Or));
            assert("pub"@ =~= spelling(TokenKind::Pub));
            assert("return"@ =~= spelling(TokenKind::Return));
            assert("struct"@ =~= spelling(TokenKind::Struct));
            assert("this"@ =~= spelling(TokenKind::This));
            assert("true"@ =~= spelling(TokenKind::True));
            assert("var"@ =~= spelling(TokenKind::Var));
            assert("while"@ =~= spelling(TokenKind::While));
            TokenKind::Identifier
        }
    }
}

/// Whether two texts hold the same characters.
pub(crate) fn same_text(a: &str, b: &str) -> (r: bool)
    ensures
        r == (a@ == b@),
{
    let x = a.as_bytes();
    let y = b.as_bytes();
    if x.len() != y.len() {
        return false;
    }
    let mut i: usize = 0;
    while i < x.len()
        invariant
            x.len() == y.len(),
            x@ == encode_utf8(a@),
            y@ == encode_utf8(b@),
            0 <= i <= x.len(),
            x@.subrange(0, i as int) == y@.subrange(0, i as int),
        decreases x.len() - i,
    {
        if x[i] != y[i] {
            proof {
                assert(x@[i as int] != y@[i as int]);
            }
            return false;
        }
        proof {
            assert(x@.subrange(0, i + 1) =~= x@.subrange(0, i as int).push(x@[i as int]));
            assert(y@.subrange(0, i + 1) =~= y@.subrange(0, i as int).push(y@[i as int]));
        }
        i = i + 1;
    }
    proof {
        assert(x@ =~= x@.subrange(0, i as int));
        assert(y@ =~= y@.subrange(0, i as int));
        assert(decode_utf8(encode_utf8(a@)) == a@);
        assert(decode_utf8(encode_utf8(b@)) == b@);
    }
    true
}

} // verus!
