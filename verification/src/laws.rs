//! What holds of scanning, for every source.
//!
//! Each statement is about `scan`, the function by which `Lexer::next_token`
//! says what it returns, and about `nth_token`, the token of a later request.

use crate::classes::{
    is_blank, is_digit, is_letter, BANG, END, EQUALS, GREATER_THAN, LESS_THAN,
};
use crate::grammar::{
    byte_at, is_symbol, lemma_run_end, lemma_run_end_within, nth_offset, nth_token, number_end,
    scan, skip_blanks, word_end, word_token, Scanned,
};
use crate::text::ascii_text;
use crate::token::Token;
use vstd::prelude::*;
use vstd::utf8::{encode_utf8, is_ascii_chars, is_ascii_chars_encode_utf8};

verus! {

/// True for the characters `0` to `9`.
pub open spec fn is_digit_char(c: char) -> bool {
    '0' <= c <= '9'
}

/// True for the characters a word is made of: the letters `a` to `z` and `A`
/// to `Z`, and the underscore.
pub open spec fn is_letter_char(c: char) -> bool {
    ('a' <= c <= 'z') || ('A' <= c <= 'Z') || c == '_'
}

/// True for the seven reserved spellings.
pub open spec fn is_keyword(word: Seq<char>) -> bool {
    word == "fn"@ || word == "let"@ || word == "if"@ || word == "else"@ || word == "return"@
        || word == "true"@ || word == "false"@
}

/// A text of ASCII characters is encoded with one byte for each character,
/// and read back from these bytes it is the same text.
pub proof fn lemma_ascii_source(text: Seq<char>)
    requires
        is_ascii_chars(text),
    ensures
        encode_utf8(text).len() == text.len(),
        forall|i: int| 0 <= i < text.len() ==> #[trigger] encode_utf8(text)[i] == text[i] as u8,
        ascii_text(encode_utf8(text)) == text,
{
    is_ascii_chars_encode_utf8(text);
    let src = encode_utf8(text);
    assert forall|i: int| 0 <= i < text.len() implies (#[trigger] src[i]) as char == text[i] by {
        assert(src[i] == text[i] as u8);
    }
    assert(ascii_text(src) =~= text);
}

/// A source that holds nothing but digits, and at least one, is one number:
/// the first request yields an `Int` that carries the whole text, unchanged,
/// and the second request yields `Eof`.
pub proof fn lemma_digits_are_one_number(text: Seq<char>)
    requires
        text.len() > 0,
        forall|i: int| 0 <= i < text.len() ==> is_digit_char(#[trigger] text[i]),
    ensures
        scan(encode_utf8(text), 0) == (Scanned { token: Token::Int(text), next: text.len() as int }),
        nth_token(encode_utf8(text), 0, 0) == Token::Int(text),
        nth_token(encode_utf8(text), 0, 1) == Token::Eof,
{
    let src = encode_utf8(text);
    let len = text.len() as int;
    assert(is_ascii_chars(text));
    lemma_ascii_source(text);
    assert forall|k: int| 0 <= k < len implies is_digit(#[trigger] src[k]) by {
        assert(is_digit_char(text[k]));
    }
    let digits = |b: u8| is_digit(b);
    lemma_run_end_within(src, 0, len, digits);
    assert(number_end(src, 0) == len);
    assert(src.subrange(0, len) =~= src);
    assert(skip_blanks(src, 0) == 0);
    assert(skip_blanks(src, len) == len);
    assert(scan(src, len).token == Token::Eof);
    reveal_with_fuel(nth_token, 2);
}

/// A source that holds nothing but letters and underscores, and at least one,
/// is one word. Where it is spelled as a keyword is, the token is that
/// keyword and no name; every other word is a name that carries the whole
/// text, unchanged.
pub proof fn lemma_word_is_keyword_or_name(text: Seq<char>)
    requires
        text.len() > 0,
        forall|i: int| 0 <= i < text.len() ==> is_letter_char(#[trigger] text[i]),
    ensures
        scan(encode_utf8(text), 0) == (Scanned { token: word_token(text), next: text.len() as int }),
        is_keyword(text) ==> !(word_token(text) is Ident),
        !is_keyword(text) ==> word_token(text) == Token::Ident(text),
        nth_token(encode_utf8(text), 0, 1) == Token::Eof,
{
    let src = encode_utf8(text);
    let len = text.len() as int;
    assert(is_ascii_chars(text));
    lemma_ascii_source(text);
    assert forall|k: int| 0 <= k < len implies is_letter(#[trigger] src[k]) by {
        assert(is_letter_char(text[k]));
    }
    let letters = |b: u8| is_letter(b);
    lemma_run_end_within(src, 0, len, letters);
    assert(word_end(src, 0) == len);
    assert(src.subrange(0, len) =~= src);
    assert(skip_blanks(src, 0) == 0);
    assert(skip_blanks(src, len) == len);
    assert(scan(src, len).token == Token::Eof);
    reveal_with_fuel(nth_token, 2);
}

/// Each of the seven reserved spellings has a keyword of its own.
pub proof fn lemma_keywords()
    ensures
        word_token("fn"@) == Token::Function,
        word_token("let"@) == Token::Let,
        word_token("if"@) == Token::If,
        word_token("else"@) == Token::Else,
        word_token("return"@) == Token::Return,
        word_token("true"@) == Token::True,
        word_token("false"@) == Token::False,
{
    lemma_spellings_differ();
}

/// The seven reserved spellings differ from one another: in their length, or
/// in their first letter.
proof fn lemma_spellings_differ()
    ensures
        "fn"@.len() == 2 && "fn"@[0] == 'f',
        "if"@.len() == 2 && "if"@[0] == 'i',
        "let"@.len() == 3,
        "else"@.len() == 4 && "else"@[0] == 'e',
        "true"@.len() == 4 && "true"@[0] == 't',
        "false"@.len() == 5,
        "return"@.len() == 6,
{
    reveal_strlit("fn");
    reveal_strlit("let");
    reveal_strlit("if");
    reveal_strlit("else");
    reveal_strlit("return");
    reveal_strlit("true");
    reveal_strlit("false");
}

/// `==` and `!=` are one token each, of two bytes. `=` and `!` before any
/// other byte are `Assign` and `Bang`. `<` and `>` are always tokens of one
/// byte, so that `<=` and `>=` are two tokens, the second of which begins
/// with the `=`.
pub proof fn lemma_operators(src: Seq<u8>, i: int)
    requires
        0 <= i < src.len(),
    ensures
        src[i] == EQUALS && byte_at(src, i + 1) == EQUALS ==> scan(src, i) == (Scanned {
            token: Token::Equal,
            next: i + 2,
        }),
        src[i] == EQUALS && byte_at(src, i + 1) != EQUALS ==> scan(src, i) == (Scanned {
            token: Token::Assign,
            next: i + 1,
        }),
        src[i] == BANG && byte_at(src, i + 1) == EQUALS ==> scan(src, i) == (Scanned {
            token: Token::NotEqual,
            next: i + 2,
        }),
        src[i] == BANG && byte_at(src, i + 1) != EQUALS ==> scan(src, i) == (Scanned {
            token: Token::Bang,
            next: i + 1,
        }),
        src[i] == LESS_THAN ==> scan(src, i) == (Scanned { token: Token::LessThan, next: i + 1 }),
        src[i] == GREATER_THAN ==> scan(src, i) == (Scanned {
            token: Token::GreaterThan,
            next: i + 1,
        }),
        (src[i] == LESS_THAN || src[i] == GREATER_THAN) && byte_at(src, i + 1) == EQUALS
            && byte_at(src, i + 2) != EQUALS ==> nth_token(src, i, 1) == Token::Assign,
        (src[i] == LESS_THAN || src[i] == GREATER_THAN) && byte_at(src, i + 1) == EQUALS
            && byte_at(src, i + 2) == EQUALS ==> nth_token(src, i, 1) == Token::Equal,
{
    reveal_with_fuel(nth_token, 2);
    if is_blank(src[i]) {
    } else {
        assert(skip_blanks(src, i) == i);
    }
    if byte_at(src, i + 1) == EQUALS {
        assert(skip_blanks(src, i + 1) == i + 1);
    }
}

/// A byte that is no blank, no letter, no digit, none of the bytes of the
/// operators and delimiters and not zero is an `Illegal` token by itself, and
/// scanning goes on behind it.
pub proof fn lemma_unknown_byte_is_illegal(src: Seq<u8>, i: int)
    requires
        0 <= i < src.len(),
        !is_blank(src[i]),
        !is_letter(src[i]),
        !is_digit(src[i]),
        !is_symbol(src[i]),
        src[i] != END,
    ensures
        scan(src, i) == (Scanned { token: Token::Illegal, next: i + 1 }),
{
    assert(skip_blanks(src, i) == i);
}

/// `Illegal` is the token of such a byte only: where a request yields it, the
/// byte at which the token begins belongs to no class.
pub proof fn lemma_illegal_is_unknown_byte(src: Seq<u8>, i: int)
    requires
        0 <= i,
        scan(src, i).token == Token::Illegal,
    ensures
        ({
            let b = byte_at(src, skip_blanks(src, i));
            !is_blank(b) && !is_letter(b) && !is_digit(b) && !is_symbol(b) && b != END
        }),
        scan(src, i).next == skip_blanks(src, i) + 1,
{
    let blanks = |b: u8| is_blank(b);
    if i <= src.len() {
        lemma_run_end(src, i, blanks);
    }
}

/// Blanks before a token change nothing: where all bytes from `i` up to `j`
/// are blank, a request at `i` yields what a request at `j` yields, and
/// scanning goes on at the same offset.
pub proof fn lemma_blanks_are_skipped(src: Seq<u8>, i: int, j: int)
    requires
        0 <= i <= j <= src.len(),
        forall|k: int| i <= k < j ==> is_blank(#[trigger] src[k]),
    ensures
        scan(src, i) == scan(src, j),
{
    let blanks = |b: u8| is_blank(b);
    lemma_run_end_within(src, i, j, blanks);
}

/// No blank stands in a token: the text of a name is made of letters and
/// underscores, at least one, and the text of a number of digits, at least
/// one.
pub proof fn lemma_token_text(src: Seq<u8>, i: int)
    requires
        0 <= i,
    ensures
        scan(src, i).token matches Token::Ident(name) ==> name.len() > 0 && forall|k: int|
            0 <= k < name.len() ==> is_letter_char(#[trigger] name[k]),
        scan(src, i).token matches Token::Int(digits) ==> digits.len() > 0 && forall|k: int|
            0 <= k < digits.len() ==> is_digit_char(#[trigger] digits[k]),
{
    let blanks = |b: u8| is_blank(b);
    let letters = |b: u8| is_letter(b);
    let digits = |b: u8| is_digit(b);
    if i <= src.len() {
        lemma_run_end(src, i, blanks);
    }
    let start = skip_blanks(src, i);
    if start <= src.len() {
        lemma_run_end(src, start, letters);
        lemma_run_end(src, start, digits);
    }
    let b = byte_at(src, start);
    if is_letter(b) {
        let end = word_end(src, start);
        let span = src.subrange(start, end);
        let name = ascii_text(span);
        assert(end > start);
        assert forall|k: int| 0 <= k < name.len() implies is_letter_char(#[trigger] name[k]) by {
            assert(span[k] == src[start + k]);
            assert(is_letter(src[start + k]));
        }
    } else if is_digit(b) {
        let end = number_end(src, start);
        let span = src.subrange(start, end);
        let text = ascii_text(span);
        assert(end > start);
        assert forall|k: int| 0 <= k < text.len() implies is_digit_char(#[trigger] text[k]) by {
            assert(span[k] == src[start + k]);
            assert(is_digit(src[start + k]));
        }
    }
}

/// Every request moves on, and by no more than it reads: the offset behind a
/// token lies behind the offset of the request, and inside the source or at
/// its end wherever the token began inside the source.
pub proof fn lemma_scan_advances(src: Seq<u8>, i: int)
    requires
        0 <= i,
    ensures
        i < scan(src, i).next,
        skip_blanks(src, i) < src.len() ==> scan(src, i).next <= src.len(),
        skip_blanks(src, i) >= src.len() ==> scan(src, i) == (Scanned {
            token: Token::Eof,
            next: skip_blanks(src, i) + 1,
        }),
{
    let blanks = |b: u8| is_blank(b);
    let letters = |b: u8| is_letter(b);
    let digits = |b: u8| is_digit(b);
    if i <= src.len() {
        lemma_run_end(src, i, blanks);
    }
    let start = skip_blanks(src, i);
    if start <= src.len() {
        lemma_run_end(src, start, letters);
        lemma_run_end(src, start, digits);
    }
}

/// At the end of the source every request yields `Eof`, however many were
/// made before, and scanning stays behind the source. The end is reached
/// behind the last byte and also where only blanks are left.
pub proof fn lemma_end_repeats(src: Seq<u8>, i: int, n: nat)
    requires
        0 <= i,
        forall|k: int| i <= k < src.len() ==> is_blank(#[trigger] src[k]),
    ensures
        nth_token(src, i, n) == Token::Eof,
        nth_offset(src, i, n) >= i,
        nth_offset(src, i, (n + 1) as nat) > src.len(),
    decreases n,
{
    let len = src.len() as int;
    let blanks = |b: u8| is_blank(b);
    if i <= len {
        lemma_run_end_within(src, i, len, blanks);
    }
    lemma_scan_advances(src, i);
    reveal_with_fuel(nth_offset, 2);
    if n > 0 {
        lemma_end_repeats(src, scan(src, i).next, (n - 1) as nat);
    }
}

/// Scanning comes to the end: from offset `i`, after as many requests as
/// bytes are left, the scanner stands at the end of the source or behind it,
/// and every request from then on yields `Eof`.
pub proof fn lemma_stream_ends(src: Seq<u8>, i: int, n: nat)
    requires
        0 <= i,
        n >= src.len() - i,
    ensures
        nth_offset(src, i, n) >= src.len(),
        nth_token(src, i, n) == Token::Eof,
    decreases n,
{
    lemma_scan_advances(src, i);
    if i >= src.len() {
        lemma_end_repeats(src, i, n);
    } else {
        lemma_stream_ends(src, scan(src, i).next, (n - 1) as nat);
    }
}

} // verus!
