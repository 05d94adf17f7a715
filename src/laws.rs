//! Laws of the tokenizer, stated over the lexical grammar that `next` is
//! proved to follow, and proved here.
use vstd::prelude::*;
use vstd::utf8::*;
use crate::grammar::{
    emit, in_class, is_ascii_digit, is_escape, lemma_run_end, lemma_token_start, lex,
    lex_token, run_end, starts_comment, token_start, CharClass, Lexed,
};
use crate::text::{
    byte_offset, lemma_byte_offset_mono, lemma_bytes_between, lemma_encode_concat,
    lemma_encode_single,
};
use crate::token::{is_keyword, keyword_kind, lemma_keyword_kind, spelling, TokenKind};
use crate::tokenizer::{first_cursor, TokenizerError, BOM};
use crate::unicode::{alphabetic, alphanumeric, white_space};

verus! {

/// The text from index `i` on is made only of whitespace and line comments,
/// taken one whitespace character or one whole comment at a time.
pub open spec fn blank_from(s: Seq<char>, i: int) -> bool
    decreases s.len() - i,
    via blank_from_decreases
{
    if i >= s.len() {
        true
    } else if i < 0 {
        false
    } else if white_space(s[i]) {
        blank_from(s, i + 1)
    } else if starts_comment(s, i) {
        blank_from(s, run_end(s, i + 2, CharClass::CommentBody))
    } else {
        false
    }
}

#[via_fn]
proof fn blank_from_decreases(s: Seq<char>, i: int) {
    if 0 <= i < s.len() && !white_space(s[i]) && starts_comment(s, i) {
        lemma_run_end(s, i + 2, CharClass::CommentBody);
    }
}

/// Text of whitespace and comments holds no token.
proof fn lemma_blank_token_start(s: Seq<char>, i: int)
    requires
        0 <= i <= s.len(),
        blank_from(s, i),
    ensures
        token_start(s, i) == s.len(),
    decreases s.len() - i,
{
    if i < s.len() {
        if white_space(s[i]) {
            lemma_blank_token_start(s, i + 1);
            assert(run_end(s, i, CharClass::Whitespace) == run_end(s, i + 1, CharClass::Whitespace));
        } else {
            lemma_run_end(s, i + 2, CharClass::CommentBody);
            lemma_blank_token_start(s, run_end(s, i + 2, CharClass::CommentBody));
        }
    }
}

/// A text that holds only whitespace and comments from the cursor on lexes
/// to the end-of-input token, with an empty span at the end of the text,
/// and lexing again from where that leaves the cursor gives the same token
/// again.
pub proof fn law_blank_text_reaches_end(s: Seq<char>, i: int)
    requires
        0 <= i <= s.len(),
        blank_from(s, i),
    ensures
        lex(s, i) == emit(TokenKind::EOF, s.len() as int, s.len() as int),
        lex(s, lex(s, i).end) == lex(s, i),
{
    lemma_blank_token_start(s, i);
    lemma_token_start(s, s.len() as int);
}

/// The text `w` is one that a token of `kind` can have.
pub open spec fn fits(kind: TokenKind, w: Seq<char>) -> bool {
    match kind {
        TokenKind::Identifier => {
            &&& w.len() > 0
            &&& alphabetic(w[0]) || w[0] == '_'
            &&& forall|k: int| 1 <= k < w.len() ==> in_class(CharClass::WordPart, #[trigger] w[k])
            &&& forall|kw: TokenKind| is_keyword(kw) ==> spelling(kw) != w
        },
        TokenKind::IntegerLiteral => {
            &&& w.len() > 0
            &&& forall|k: int| 0 <= k < w.len() ==> is_ascii_digit(#[trigger] w[k])
        },
        TokenKind::FloatLiteral => exists|d: int|
            {
                &&& 0 < d < w.len() - 1
                &&& #[trigger] w[d] == '.'
                &&& forall|k: int| 0 <= k < w.len() && k != d ==> is_ascii_digit(#[trigger] w[k])
            },
        TokenKind::CharLiteral => {
            &&& w.len() >= 3
            &&& w[0] == '\''
            &&& w[w.len() - 1] == '\''
            &&& {
                ||| w.len() == 3 && w[1] != '\'' && w[1] != '\\'
                ||| w.len() == 4 && w[1] == '\\' && is_escape(w[2])
            }
        },
        TokenKind::EOF => w.len() == 0,
        _ => w =~= spelling(kind),
    }
}

/// Every token but the end-of-input one covers a non-empty stretch of the
/// text, and that stretch fits the token's kind: a reserved word or an
/// operator is exactly its spelling, an identifier spells no reserved word.
/// The token's span in bytes is non-empty too and covers exactly the
/// encoding of that stretch.
pub proof fn law_token_text_fits_kind(s: Seq<char>, i: int)
    requires
        0 <= i <= s.len(),
    ensures
        ({
            let l = lex(s, i);
            l.outcome is Ok && l.outcome->Ok_0 != TokenKind::EOF ==> {
                &&& l.start < l.end
                &&& fits(l.outcome->Ok_0, s.subrange(l.start, l.end))
                &&& byte_offset(s, l.start) < byte_offset(s, l.end)
                &&& encode_utf8(s).subrange(byte_offset(s, l.start), byte_offset(s, l.end))
                    == encode_utf8(s.subrange(l.start, l.end))
            }
        }),
{
    lemma_token_start(s, i);
    let j = token_start(s, i);
    let l = lex(s, i);
    if l.outcome is Ok && l.outcome->Ok_0 != TokenKind::EOF {
        lemma_lex_token_fits(s, j);
        lemma_byte_offset_mono(s, l.start, l.end);
        lemma_bytes_between(s, l.start, l.end);
    }
}

proof fn lemma_lex_token_fits(s: Seq<char>, j: int)
    requires
        0 <= j < s.len(),
    ensures
        ({
            let l = lex_token(s, j);
            &&& j == l.start
            &&& l.start <= l.end <= s.len()
            &&& l.outcome is Ok ==> {
                &&& l.outcome->Ok_0 != TokenKind::EOF
                &&& l.start < l.end
                &&& fits(l.outcome->Ok_0, s.subrange(l.start, l.end))
            }
        }),
{
    let c = s[j];
    let l = lex_token(s, j);
    let w = s.subrange(l.start, l.end);
    if c == '/' {
    } else if alphabetic(c) || c == '_' {
        let e = run_end(s, j + 1, CharClass::WordPart);
        lemma_run_end(s, j + 1, CharClass::WordPart);
        lemma_keyword_kind(s.subrange(j, e));
        assert forall|k: int| 1 <= k < w.len() implies in_class(CharClass::WordPart, #[trigger] w[k]) by {
            assert(w[k] == s[j + k]);
        }
    } else if c == '\'' {
    } else if is_ascii_digit(c) {
        let e = run_end(s, j + 1, CharClass::Digit);
        lemma_run_end(s, j + 1, CharClass::Digit);
        if e + 2 <= s.len() {
            lemma_run_end(s, e + 2, CharClass::Digit);
        }
        if l.outcome == Ok::<TokenKind, TokenizerError>(TokenKind::FloatLiteral) {
            let d = e - j;
            assert(w[d] == '.');
            assert forall|k: int| 0 <= k < w.len() && k != d implies is_ascii_digit(#[trigger] w[k]) by {
                assert(w[k] == s[j + k]);
            }
        } else {
            assert forall|k: int| 0 <= k < w.len() implies is_ascii_digit(#[trigger] w[k]) by {
                assert(w[k] == s[j + k]);
            }
        }
    }
}

/// The outcome `l` moved `m` places later in the text.
pub open spec fn shifted(l: Lexed, m: int) -> Lexed {
    Lexed { outcome: l.outcome, start: l.start + m, end: l.end + m }
}

proof fn lemma_run_end_shift(p: Seq<char>, t: Seq<char>, i: int, class: CharClass)
    requires
        0 <= i <= t.len(),
    ensures
        run_end(p + t, i + p.len(), class) == run_end(t, i, class) + p.len(),
    decreases t.len() - i,
{
    if i < t.len() {
        assert((p + t)[i + p.len()] == t[i]);
        lemma_run_end_shift(p, t, i + 1, class);
    }
}

proof fn lemma_token_start_shift(p: Seq<char>, t: Seq<char>, i: int)
    requires
        0 <= i <= t.len(),
    ensures
        token_start(p + t, i + p.len()) == token_start(t, i) + p.len(),
    decreases t.len() - i,
{
    let s = p + t;
    let m = p.len() as int;
    lemma_run_end_shift(p, t, i, CharClass::Whitespace);
    lemma_run_end(t, i, CharClass::Whitespace);
    let j = run_end(t, i, CharClass::Whitespace);
    if j + 1 < t.len() {
        assert(s[j + m] == t[j]);
        assert(s[j + 1 + m] == t[j + 1]);
    }
    assert(starts_comment(s, j + m) == starts_comment(t, j));
    if starts_comment(t, j) {
        lemma_run_end_shift(p, t, j + 2, CharClass::CommentBody);
        lemma_run_end(t, j + 2, CharClass::CommentBody);
        lemma_token_start_shift(p, t, run_end(t, j + 2, CharClass::CommentBody));
    }
}

proof fn lemma_lex_token_shift(p: Seq<char>, t: Seq<char>, j: int)
    requires
        0 <= j < t.len(),
    ensures
        lex_token(p + t, j + p.len()) == shifted(lex_token(t, j), p.len() as int),
{
    let s = p + t;
    let m = p.len() as int;
    assert forall|k: int| 0 <= k < t.len() implies #[trigger] s[k + m] == t[k] by {}
    lemma_run_end_shift(p, t, j + 1, CharClass::WordPart);
    lemma_run_end(t, j + 1, CharClass::WordPart);
    let e = run_end(t, j + 1, CharClass::WordPart);
    assert(s.subrange(j + m, e + m) =~= t.subrange(j, e));
    lemma_run_end_shift(p, t, j + 1, CharClass::Digit);
    lemma_run_end(t, j + 1, CharClass::Digit);
    let d = run_end(t, j + 1, CharClass::Digit);
    if d + 2 <= t.len() {
        lemma_run_end_shift(p, t, d + 2, CharClass::Digit);
    }
    assert(s[j + m] == t[j]);
    if j + 1 < t.len() {
        assert(s[j + 1 + m] == t[j + 1]);
    }
    if j + 2 < t.len() {
        assert(s[j + 2 + m] == t[j + 2]);
    }
    if j + 3 < t.len() {
        assert(s[j + 3 + m] == t[j + 3]);
    }
    if d + 1 < t.len() {
        assert(s[d + m] == t[d]);
        assert(s[d + 1 + m] == t[d + 1]);
    }
}

/// Lexing does not look behind the cursor: the same text after any prefix
/// lexes the same, at positions moved by the prefix's length.
pub proof fn lemma_lex_shift(p: Seq<char>, t: Seq<char>, i: int)
    requires
        0 <= i <= t.len(),
    ensures
        lex(p + t, i + p.len()) == shifted(lex(t, i), p.len() as int),
{
    lemma_token_start_shift(p, t, i);
    lemma_token_start(t, i);
    let j = token_start(t, i);
    if j < t.len() {
        lemma_lex_token_shift(p, t, j);
    }
}

/// A byte-order mark in front of a text changes nothing but positions. A
/// tokenizer starts past the mark, where it would start on the bare text
/// (when that text does not itself begin with a mark); from any cursor in
/// the text, the text behind the mark lexes as the bare text does, one
/// character later, and every byte offset lies three bytes later, the
/// length of the mark's encoding.
pub proof fn law_bom_only_shifts(t: Seq<char>, i: int)
    requires
        0 <= i <= t.len(),
    ensures
        first_cursor(t) == 0 ==> first_cursor(seq![BOM] + t) == first_cursor(t) + 1,
        lex(seq![BOM] + t, i + 1) == shifted(lex(t, i), 1),
        forall|k: int| 0 <= k <= t.len() ==> #[trigger] byte_offset(seq![BOM] + t, k + 1) == byte_offset(t, k) + 3,
{
    let p = seq![BOM];
    lemma_lex_shift(p, t, i);
    lemma_encode_single(BOM);
    assert(encode_scalar(BOM as u32).len() == 3);
    assert forall|k: int| 0 <= k <= t.len() implies #[trigger] byte_offset(p + t, k + 1) == byte_offset(t, k) + 3 by {
        assert((p + t).take(k + 1) =~= p + t.take(k));
        lemma_encode_concat(p, t.take(k));
    }
}

/// The word at `[j, e)` ends where its run of word characters does.
proof fn lemma_run_end_exact(s: Seq<char>, i: int, e: int, class: CharClass)
    requires
        0 <= i <= e <= s.len(),
        forall|k: int| i <= k < e ==> in_class(class, #[trigger] s[k]),
        e == s.len() || !in_class(class, s[e]),
    ensures
        run_end(s, i, class) == e,
    decreases e - i,
{
    if i < e {
        lemma_run_end_exact(s, i + 1, e, class);
    }
}

/// A word lexes as one token spanning all of it, whatever script its
/// letters belong to. A word is a first character that is alphabetic or an
/// underscore (a slash always begins an operator or a comment), followed by
/// the longest run of alphanumeric characters and underscores. The token is
/// the reserved word that the word spells, or else an identifier.
pub proof fn law_word_is_one_token(s: Seq<char>, i: int, j: int, e: int)
    requires
        0 <= i <= j < e <= s.len(),
        token_start(s, i) == j,
        alphabetic(s[j]) || s[j] == '_',
        s[j] != '/',
        forall|k: int| j < k < e ==> alphanumeric(#[trigger] s[k]) || s[k] == '_',
        e == s.len() || !(alphanumeric(s[e]) || s[e] == '_'),
    ensures
        lex(s, i) == emit(keyword_kind(s.subrange(j, e)), j, e),
        keyword_kind(s.subrange(j, e)) is Identifier <==> (forall|kw: TokenKind|
            is_keyword(kw) ==> spelling(kw) != s.subrange(j, e)),
{
    lemma_run_end_exact(s, j + 1, e, CharClass::WordPart);
    lemma_keyword_kind(s.subrange(j, e));
}

} // verus!
