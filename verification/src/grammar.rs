//! What the scanner reads from a source, as functions of the bytes and an
//! offset into them.
//!
//! Scanning has no memory but the offset: the token at an offset and the
//! offset behind it depend on the bytes alone.

use crate::classes::{
    is_blank, is_digit, is_letter, ASTERISK, BANG, COMMA, DASH, END, EQUALS, GREATER_THAN,
    LEFT_BRACE, LEFT_PAREN, LESS_THAN, PLUS, RIGHT_BRACE, RIGHT_PAREN, SEMICOLON, SLASH,
};
use crate::text::ascii_text;
use crate::token::Token;
use vstd::prelude::*;

verus! {

/// The byte at an offset, and the end mark at any offset outside the source.
pub open spec fn byte_at(src: Seq<u8>, i: int) -> u8 {
    if 0 <= i < src.len() {
        src[i]
    } else {
        END
    }
}

/// The offset behind the run of bytes of one class that starts at `i`: that
/// of the first byte at or after `i` that is not of the class, and the length
/// of the source where the run goes to its end.
pub open spec fn run_end(src: Seq<u8>, i: int, class: spec_fn(u8) -> bool) -> int
    decreases src.len() - i,
{
    if 0 <= i < src.len() && class(src[i]) {
        run_end(src, i + 1, class)
    } else {
        i
    }
}

/// The offset of the first byte at or after `i` that is not blank.
pub open spec fn skip_blanks(src: Seq<u8>, i: int) -> int {
    run_end(src, i, |b: u8| is_blank(b))
}

/// The offset behind the word that starts at `i`, which runs as far as
/// letters and underscores go.
pub open spec fn word_end(src: Seq<u8>, i: int) -> int {
    run_end(src, i, |b: u8| is_letter(b))
}

/// The offset behind the digits that start at `i`.
pub open spec fn number_end(src: Seq<u8>, i: int) -> int {
    run_end(src, i, |b: u8| is_digit(b))
}

/// A run ends inside the source, behind bytes of the class only, and before a
/// byte that is not of the class.
pub proof fn lemma_run_end(src: Seq<u8>, i: int, class: spec_fn(u8) -> bool)
    requires
        0 <= i <= src.len(),
    ensures
        i <= run_end(src, i, class) <= src.len(),
        forall|k: int| i <= k < run_end(src, i, class) ==> class(#[trigger] src[k]),
        run_end(src, i, class) < src.len() ==> !class(src[run_end(src, i, class)]),
    decreases src.len() - i,
{
    if i < src.len() && class(src[i]) {
        lemma_run_end(src, i + 1, class);
    }
}

/// A run has the same end from each of its offsets: where all bytes from `i`
/// up to `j` are of the class, the run from `i` ends where the run from `j`
/// does.
pub proof fn lemma_run_end_within(src: Seq<u8>, i: int, j: int, class: spec_fn(u8) -> bool)
    requires
        0 <= i <= j <= src.len(),
        forall|k: int| i <= k < j ==> class(#[trigger] src[k]),
    ensures
        run_end(src, i, class) == run_end(src, j, class),
    decreases j - i,
{
    if i < j {
        lemma_run_end_within(src, i + 1, j, class);
    }
}

/// The token for a word: its keyword where it is one of the seven reserved
/// spellings, a name otherwise.
pub open spec fn word_token(word: Seq<char>) -> Token {
    if word == "fn"@ {
        Token::Function
    } else if word == "let"@ {
        Token::Let
    } else if word == "if"@ {
        Token::If
    } else if word == "false"@ {
        Token::False
    } else if word == "true"@ {
        Token::True
    } else if word == "return"@ {
        Token::Return
    } else if word == "else"@ {
        Token::Else
    } else {
        Token::Ident(word)
    }
}

/// True for the bytes of which the operators and delimiters are made.
pub open spec fn is_symbol(b: u8) -> bool {
    b == LEFT_BRACE || b == RIGHT_BRACE || b == LEFT_PAREN || b == RIGHT_PAREN || b == COMMA
        || b == SEMICOLON || b == PLUS || b == DASH || b == BANG || b == GREATER_THAN
        || b == LESS_THAN || b == ASTERISK || b == SLASH || b == EQUALS
}

/// The token that a byte makes where it stands for itself alone. The two
/// bytes that may begin a longer operator, `=` and `!`, give here what they
/// mean when no `=` follows. The end mark gives `Eof`, and a byte of no class
/// `Illegal`.
pub open spec fn symbol_token(b: u8) -> Token {
    match b {
        LEFT_BRACE => Token::LSquirly,
        RIGHT_BRACE => Token::RSquirly,
        LEFT_PAREN => Token::Lparen,
        RIGHT_PAREN => Token::Rparen,
        COMMA => Token::Comma,
        SEMICOLON => Token::Semicolon,
        PLUS => Token::Plus,
        DASH => Token::Dash,
        BANG => Token::Bang,
        GREATER_THAN => Token::GreaterThan,
        LESS_THAN => Token::LessThan,
        ASTERISK => Token::Asterisk,
        SLASH => Token::ForwardSlash,
        EQUALS => Token::Assign,
        END => Token::Eof,
        _ => Token::Illegal,
    }
}

/// A token together with the offset at which scanning goes on.
pub struct Scanned {
    pub token: Token,
    pub next: int,
}

/// The token that begins at `start`, where the byte at `start` is not blank.
///
/// A letter or an underscore begins a word, which runs as far as letters and
/// underscores go, and a digit a number. `==` and `!=` are the only tokens of
/// two bytes. Every other byte is a token by itself, a zero byte and a byte of
/// no class too. At the end of the source and behind it the end mark is read,
/// which is a token of one byte as well: the offset moves on.
pub open spec fn token_at(src: Seq<u8>, start: int) -> Scanned {
    let b = byte_at(src, start);
    if is_letter(b) {
        let end = word_end(src, start);
        Scanned { token: word_token(ascii_text(src.subrange(start, end))), next: end }
    } else if is_digit(b) {
        let end = number_end(src, start);
        Scanned { token: Token::Int(ascii_text(src.subrange(start, end))), next: end }
    } else if b == BANG && byte_at(src, start + 1) == EQUALS {
        Scanned { token: Token::NotEqual, next: start + 2 }
    } else if b == EQUALS && byte_at(src, start + 1) == EQUALS {
        Scanned { token: Token::Equal, next: start + 2 }
    } else {
        Scanned { token: symbol_token(b), next: start + 1 }
    }
}

/// The next token at or after offset `i`: blanks are passed over, then one
/// token is read.
pub open spec fn scan(src: Seq<u8>, i: int) -> Scanned {
    token_at(src, skip_blanks(src, i))
}

/// The token that the `n`-th request after offset `i` yields, counting from 0.
pub open spec fn nth_token(src: Seq<u8>, i: int, n: nat) -> Token
    decreases n,
{
    if n == 0 {
        scan(src, i).token
    } else {
        nth_token(src, scan(src, i).next, (n - 1) as nat)
    }
}

/// The offset at which scanning stands after `n` requests from offset `i`.
pub open spec fn nth_offset(src: Seq<u8>, i: int, n: nat) -> int
    decreases n,
{
    if n == 0 {
        i
    } else {
        nth_offset(src, scan(src, i).next, (n - 1) as nat)
    }
}

} // verus!
