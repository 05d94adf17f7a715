use crawfish::ast::ASTNode;
use crawfish::token::{Span, Token, TokenKind};
use crawfish::tokenizer::{Tokenizer, TokenizerError};

fn lex_all(source: &str) -> Vec<Token> {
    let mut tokenizer = Tokenizer::new(source);
    let mut tokens = Vec::new();
    loop {
        let token = tokenizer.next().unwrap();
        tokens.push(token);
        if token.kind == TokenKind::EOF {
            return tokens;
        }
    }
}

#[test]
fn blank_text_gives_end_of_input_again_and_again() {
    let source = "  // one\n\t// two\n   // three";
    let mut tokenizer = Tokenizer::new(source);
    let first = tokenizer.next().unwrap();
    assert_eq!(first, Token::new(TokenKind::EOF, Span::new(source.len(), source.len())));
    assert_eq!(tokenizer.next().unwrap(), first);
    assert_eq!(tokenizer.next().unwrap(), first);
}

#[test]
fn end_of_input_span_is_empty_at_the_end() {
    let source = "ab  ";
    let mut tokenizer = Tokenizer::new(source);
    assert_eq!(tokenizer.next().unwrap().span, Span::new(0, 2));
    assert_eq!(tokenizer.next().unwrap().span, Span::new(4, 4));
}

#[test]
fn every_lexeme_is_non_empty_and_fits_its_kind() {
    let source = "struct Point { x: 1.5, y: 'a' } // done\nif x <<= y => café_2 and andy";
    for token in lex_all(source) {
        let text = token.lexeme(source);
        if token.kind == TokenKind::EOF {
            assert_eq!(text, "");
            continue;
        }
        assert!(!text.is_empty());
        let first = text.chars().next().unwrap();
        if first.is_alphabetic() || first == '_' {
            assert_eq!(Token::lexeme_token_kind(text), token.kind);
        }
    }
    let kinds: Vec<TokenKind> = lex_all(source).iter().map(|t| t.kind).collect();
    assert_eq!(
        kinds,
        vec![
            TokenKind::Struct,
            TokenKind::Identifier,
            TokenKind::LeftCurlyBracket,
            TokenKind::Identifier,
            TokenKind::Colon,
            TokenKind::FloatLiteral,
            TokenKind::Comma,
            TokenKind::Identifier,
            TokenKind::Colon,
            TokenKind::CharLiteral,
            TokenKind::RightCurlyBracket,
            TokenKind::If,
            TokenKind::Identifier,
            TokenKind::LeftAngleBracketLeftAngleBracketEqual,
            TokenKind::Identifier,
            TokenKind::FatArrow,
            TokenKind::Identifier,
            TokenKind::And,
            TokenKind::Identifier,
            TokenKind::EOF,
        ]
    );
}

#[test]
fn integer_then_dot_is_two_tokens() {
    let source = "1.";
    let mut tokenizer = Tokenizer::new(source);
    assert_eq!(
        tokenizer.next(),
        Ok(Token::new(TokenKind::IntegerLiteral, Span::new(0, 1)))
    );
    assert_eq!(tokenizer.next(), Ok(Token::new(TokenKind::Dot, Span::new(1, 2))));
    assert_eq!(tokenizer.next(), Ok(Token::new(TokenKind::EOF, Span::new(2, 2))));
}

#[test]
fn integer_dot_word_leaves_the_dot() {
    let source = "7.x";
    let mut tokenizer = Tokenizer::new(source);
    assert_eq!(
        tokenizer.next(),
        Ok(Token::new(TokenKind::IntegerLiteral, Span::new(0, 1)))
    );
    assert_eq!(tokenizer.next(), Ok(Token::new(TokenKind::Dot, Span::new(1, 2))));
    assert_eq!(
        tokenizer.next(),
        Ok(Token::new(TokenKind::Identifier, Span::new(2, 3)))
    );
}

#[test]
fn float_spans_the_whole_text() {
    let source = "0.5";
    let mut tokenizer = Tokenizer::new(source);
    let token = tokenizer.next().unwrap();
    assert_eq!(token, Token::new(TokenKind::FloatLiteral, Span::new(0, 3)));
    assert_eq!(token.lexeme(source), "0.5");
    assert_eq!(tokenizer.next().unwrap().kind, TokenKind::EOF);
}

#[test]
fn character_literal_errors() {
    assert_eq!(Tokenizer::new("''").next(), Err(TokenizerError::EmptyChar));
    assert_eq!(
        Tokenizer::new("'\\a'").next(),
        Err(TokenizerError::InvalidEscapeSequenceChar)
    );
    assert_eq!(Tokenizer::new("'a").next(), Err(TokenizerError::UnterminatedChar));
    assert_eq!(Tokenizer::new("'ab'").next(), Err(TokenizerError::UnterminatedChar));
}

#[test]
fn character_literal_spans() {
    let source = "'a' '\\n' 'é'";
    let mut tokenizer = Tokenizer::new(source);
    assert_eq!(
        tokenizer.next(),
        Ok(Token::new(TokenKind::CharLiteral, Span::new(0, 3)))
    );
    assert_eq!(
        tokenizer.next(),
        Ok(Token::new(TokenKind::CharLiteral, Span::new(4, 8)))
    );
    assert_eq!(
        tokenizer.next(),
        Ok(Token::new(TokenKind::CharLiteral, Span::new(9, 13)))
    );
}

#[test]
fn angle_operators_grow_one_character_at_a_time() {
    let cases = [
        ("<", TokenKind::LeftAngleBracket),
        ("<=", TokenKind::LeftAngleBracketEqual),
        ("<<", TokenKind::LeftAngleBracketLeftAngleBracket),
        ("<<=", TokenKind::LeftAngleBracketLeftAngleBracketEqual),
    ];
    for (source, kind) in cases {
        let mut tokenizer = Tokenizer::new(source);
        assert_eq!(
            tokenizer.next(),
            Ok(Token::new(kind, Span::new(0, source.len())))
        );
        assert_eq!(
            tokenizer.next(),
            Ok(Token::new(TokenKind::EOF, Span::new(source.len(), source.len())))
        );
    }
}

#[test]
fn byte_order_mark_only_shifts_spans() {
    let text = "var x = 'q'; // note\n y >>= 2.25";
    let marked = format!("\u{FEFF}{}", text);
    let plain = lex_all(text);
    let with_mark = lex_all(&marked);
    assert_eq!(plain.len(), with_mark.len());
    for (a, b) in plain.iter().zip(with_mark.iter()) {
        assert_eq!(a.kind, b.kind);
        assert_eq!(b.span, Span::new(a.span.start + 3, a.span.end + 3));
    }
    assert_eq!(with_mark[0].span.start, 3);
}

#[test]
fn non_ascii_words_are_single_identifiers() {
    let source = "café αβγ_δ _été 名前 x²";
    let tokens = lex_all(source);
    let lexemes: Vec<&str> = tokens.iter().map(|t| t.lexeme(source)).collect();
    assert_eq!(lexemes, vec!["café", "αβγ_δ", "_été", "名前", "x²", ""]);
    for token in &tokens[..5] {
        assert_eq!(token.kind, TokenKind::Identifier);
    }
    assert_eq!(tokens[0].span, Span::new(0, 5));
}

#[test]
fn unicode_whitespace_separates_tokens() {
    let source = "\u{3000}a\u{00A0}b";
    let tokens = lex_all(source);
    assert_eq!(tokens[0], Token::new(TokenKind::Identifier, Span::new(3, 4)));
    assert_eq!(tokens[1], Token::new(TokenKind::Identifier, Span::new(6, 7)));
}

#[test]
fn unrecognized_character_is_carried() {
    assert_eq!(
        Tokenizer::new("  §").next(),
        Err(TokenizerError::UnrecognizedCharacter('§'))
    );
}

#[test]
fn cursor_after_error_moves_on() {
    let mut tokenizer = Tokenizer::new("@ +");
    assert_eq!(tokenizer.next(), Err(TokenizerError::UnrecognizedCharacter('@')));
    assert_eq!(tokenizer.next(), Ok(Token::new(TokenKind::Plus, Span::new(2, 3))));
}

#[test]
fn all_reserved_words() {
    let words = [
        ("and", TokenKind::And),
        ("break", TokenKind::Break),
        ("continue", TokenKind::Continue),
        ("const", TokenKind::Const),
        ("else", TokenKind::Else),
        ("enum", TokenKind::Enum),
        ("defer", TokenKind::Defer),
        ("false", TokenKind::False),
        ("for", TokenKind::For),
        ("func", TokenKind::Func),
        ("if", TokenKind::If),
        ("implements", TokenKind::Implements),
        ("import", TokenKind::Import),
        ("in", TokenKind::In),
        ("interface", TokenKind::Interface),
        ("match", TokenKind::Match),
        ("null", TokenKind::Null),
        ("or", TokenKind::Or),
        ("pub", TokenKind::Pub),
        ("return", TokenKind::Return),
        ("struct", TokenKind::Struct),
        ("this", TokenKind::This),
        ("true", TokenKind::True),
        ("var", TokenKind::Var),
        ("while", TokenKind::While),
    ];
    for (word, kind) in words {
        assert_eq!(Token::lexeme_token_kind(word), kind);
        let mut tokenizer = Tokenizer::new(word);
        assert_eq!(tokenizer.next(), Ok(Token::new(kind, Span::new(0, word.len()))));
    }
    assert_eq!(Token::lexeme_token_kind("True"), TokenKind::Identifier);
    assert_eq!(Token::lexeme_token_kind("iff"), TokenKind::Identifier);
    assert_eq!(Token::lexeme_token_kind(""), TokenKind::Identifier);
}

#[test]
fn remaining_operators_and_spans() {
    let source = "a->b-=c/=d%e::f";
    let tokens = lex_all(source);
    let spans: Vec<(TokenKind, usize, usize)> = tokens
        .iter()
        .map(|t| (t.kind, t.span.start, t.span.end))
        .collect();
    assert_eq!(
        spans,
        vec![
            (TokenKind::Identifier, 0, 1),
            (TokenKind::SkinnyArrow, 1, 3),
            (TokenKind::Identifier, 3, 4),
            (TokenKind::MinusEqual, 4, 6),
            (TokenKind::Identifier, 6, 7),
            (TokenKind::SlashEqual, 7, 9),
            (TokenKind::Identifier, 9, 10),
            (TokenKind::Percent, 10, 11),
            (TokenKind::Identifier, 11, 12),
            (TokenKind::DoubleColon, 12, 14),
            (TokenKind::Identifier, 14, 15),
            (TokenKind::EOF, 15, 15),
        ]
    );
}

#[test]
fn constructors_keep_their_fields() {
    let span = Span::new(2, 7);
    assert_eq!(span.start, 2);
    assert_eq!(span.end, 7);
    let token = Token::new(TokenKind::Comma, span);
    assert_eq!(token.kind, TokenKind::Comma);
    assert_eq!(token.span, span);
    let node = ASTNode::new(4, 9);
    assert_eq!(node.span, Span::new(4, 9));
}
